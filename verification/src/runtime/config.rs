//! Settings, where they come from and what they stand for.
use vstd::prelude::*;
use vstd::utf8::*;

use crate::backend::{IoError, IoErrorKind, IoErrorView};
use crate::execution::EntryFacts;
use crate::model::{ChannelCount, ModelErrorView};
use crate::number;
use crate::path;
use crate::path::FilePath;
use crate::plan::OutputMode;
use crate::policy;
use crate::policy::{
    CodecRule, CodecRuleView, CompatibilityPolicy, PolicyView, ProfileName, ProfileNameView,
    UnknownCodecBehavior,
};
use crate::runtime::batch::MAX_CONCURRENCY;
use crate::stream::AudioCodecFamily;
use crate::table;
use crate::table::{TextMap, TextSet};
use crate::target;
use crate::target::{
    AacBitrate, Ac3Bitrate, AudioTarget, Eac3Bitrate, TargetBitrateError, TargetBitrateErrorView,
    TargetLayout, TargetView,
};
use crate::text;

verus! {

/// Where a setting comes from.
#[derive(Debug, Clone, Copy, PartialEq, Eq, Structural)]
pub enum ConfigSource {
    /// The command line.
    Cli,
    /// The environment.
    Environment,
    /// The configuration file.
    File,
    /// It is built in.
    Default,
}

impl DeepView for ConfigSource {
    type V = ConfigSource;

    open spec fn deep_view(&self) -> ConfigSource {
        *self
    }
}

impl ConfigSource {
    /// The name for people.
    pub open spec fn label(self) -> Seq<char> {
        match self {
            ConfigSource::Cli => "cli"@,
            ConfigSource::Environment => "env"@,
            ConfigSource::File => "config"@,
            ConfigSource::Default => "default"@,
        }
    }

    /// The name for people.
    pub fn show(self) -> (r: &'static str)
        ensures
            r@ == self.label(),
    {
        match self {
            ConfigSource::Cli => "cli",
            ConfigSource::Environment => "env",
            ConfigSource::File => "config",
            ConfigSource::Default => "default",
        }
    }
}

/// A setting and where it comes from.
#[derive(Debug, Clone, PartialEq, Eq)]
pub struct Sourced<T> {
    value: T,
    source: ConfigSource,
}

/// A setting and where it comes from.
pub struct SourcedView<V> {
    /// The setting.
    pub value: V,
    /// Where it comes from.
    pub source: ConfigSource,
}

impl<T: View> View for Sourced<T> {
    type V = SourcedView<T::V>;

    closed spec fn view(&self) -> SourcedView<T::V> {
        SourcedView { value: self.value@, source: self.source }
    }
}

impl<T: View> DeepView for Sourced<T> {
    type V = SourcedView<<T as View>::V>;

    open spec fn deep_view(&self) -> SourcedView<<T as View>::V> {
        self@
    }
}

impl<T: View> Sourced<T> {
    fn new(value: T, source: ConfigSource) -> (r: Self)
        ensures
            r@ == (SourcedView { value: value@, source }),
    {
        Sourced { value, source }
    }

    /// The setting.
    pub fn value(&self) -> (r: &T)
        ensures
            r@ == self@.value,
    {
        &self.value
    }

    /// Where it comes from.
    pub fn source(&self) -> (r: ConfigSource)
        ensures
            r == self@.source,
    {
        self.source
    }
}

/// What a profile of the user says of codecs that are not known.
#[derive(Debug, Clone, Copy, PartialEq, Eq, Structural)]
pub enum UnknownCodecFile {
    /// They are refused.
    Reject,
    /// They are tried.
    TranscodeWithFallback,
}

impl DeepView for UnknownCodecFile {
    type V = UnknownCodecFile;

    open spec fn deep_view(&self) -> UnknownCodecFile {
        *self
    }
}

/// What a profile of the user says of one codec family.
#[derive(Debug, PartialEq, Eq)]
pub struct CodecRuleFile {
    /// Most channels.
    pub maximum_channels: Option<u16>,
    /// The only layouts.
    pub allowed_layouts: Option<Vec<String>>,
}

/// What a profile of the user says of one codec family.
pub struct CodecRuleFileView {
    /// Most channels.
    pub maximum_channels: Option<u16>,
    /// The only layouts.
    pub allowed_layouts: Option<Seq<Seq<char>>>,
}

impl View for CodecRuleFile {
    type V = CodecRuleFileView;

    open spec fn view(&self) -> CodecRuleFileView {
        CodecRuleFileView {
            maximum_channels: self.maximum_channels,
            allowed_layouts: self.allowed_layouts.deep_view(),
        }
    }
}

impl DeepView for CodecRuleFile {
    type V = CodecRuleFileView;

    open spec fn deep_view(&self) -> CodecRuleFileView {
        self@
    }
}

/// A profile of the user.
#[derive(Debug, PartialEq, Eq)]
pub struct ProfileFile {
    /// What it says of codecs that are not known.
    pub unknown_codec: UnknownCodecFile,
    /// What it says of codec families.
    pub codecs: TextMap<CodecRuleFile>,
}

/// A profile of the user.
pub struct ProfileFileView {
    /// What it says of codecs that are not known.
    pub unknown_codec: UnknownCodecFile,
    /// What it says of codec families.
    pub codecs: Map<Seq<char>, CodecRuleFileView>,
}

impl View for ProfileFile {
    type V = ProfileFileView;

    open spec fn view(&self) -> ProfileFileView {
        ProfileFileView {
            unknown_codec: self.unknown_codec,
            codecs: self.codecs@,
        }
    }
}

impl DeepView for ProfileFile {
    type V = ProfileFileView;

    open spec fn deep_view(&self) -> ProfileFileView {
        self@
    }
}

/// Settings from one place.
#[derive(Debug, PartialEq, Eq)]
pub struct PartialConfig {
    /// Device profile.
    pub profile: Option<String>,
    /// Target codec.
    pub codec: Option<String>,
    /// Target bitrate.
    pub bitrate: Option<String>,
    /// Target layout.
    pub channels: Option<String>,
    /// Output mode.
    pub mode: Option<String>,
    /// How many files are worked on at once.
    pub jobs: Option<usize>,
    /// The kind of storage.
    pub storage_profile: Option<String>,
    /// The conversion tool or its directory.
    pub ffmpeg_path: Option<FilePath>,
    /// Directory of outputs.
    pub output_directory: Option<FilePath>,
    /// Use of color.
    pub color: Option<String>,
    /// Log file.
    pub log_file: Option<FilePath>,
    /// Profiles of the user.
    pub custom_profiles: TextMap<ProfileFile>,
}

/// Settings from one place.
pub struct PartialConfigView {
    /// Device profile.
    pub profile: Option<Seq<char>>,
    /// Target codec.
    pub codec: Option<Seq<char>>,
    /// Target bitrate.
    pub bitrate: Option<Seq<char>>,
    /// Target layout.
    pub channels: Option<Seq<char>>,
    /// Output mode.
    pub mode: Option<Seq<char>>,
    /// How many files are worked on at once.
    pub jobs: Option<usize>,
    /// The kind of storage.
    pub storage_profile: Option<Seq<char>>,
    /// The conversion tool or its directory.
    pub ffmpeg_path: Option<Seq<u8>>,
    /// Directory of outputs.
    pub output_directory: Option<Seq<u8>>,
    /// Use of color.
    pub color: Option<Seq<char>>,
    /// Log file.
    pub log_file: Option<Seq<u8>>,
    /// Profiles of the user.
    pub custom_profiles: Map<Seq<char>, ProfileFileView>,
}

impl View for PartialConfig {
    type V = PartialConfigView;

    open spec fn view(&self) -> PartialConfigView {
        PartialConfigView {
            profile: self.profile.deep_view(),
            codec: self.codec.deep_view(),
            bitrate: self.bitrate.deep_view(),
            channels: self.channels.deep_view(),
            mode: self.mode.deep_view(),
            jobs: self.jobs,
            storage_profile: self.storage_profile.deep_view(),
            ffmpeg_path: self.ffmpeg_path.deep_view(),
            output_directory: self.output_directory.deep_view(),
            color: self.color.deep_view(),
            log_file: self.log_file.deep_view(),
            custom_profiles: self.custom_profiles@,
        }
    }
}

impl DeepView for PartialConfig {
    type V = PartialConfigView;

    open spec fn deep_view(&self) -> PartialConfigView {
        self@
    }
}

/// Settings from a place that has none.
pub open spec fn no_settings() -> PartialConfigView {
    PartialConfigView {
        profile: None,
        codec: None,
        bitrate: None,
        channels: None,
        mode: None,
        jobs: None,
        storage_profile: None,
        ffmpeg_path: None,
        output_directory: None,
        color: None,
        log_file: None,
        custom_profiles: Map::empty(),
    }
}

impl Default for PartialConfig {
    fn default() -> (r: Self)
        ensures
            r@ == no_settings(),
    {
        PartialConfig {
            profile: None,
            codec: None,
            bitrate: None,
            channels: None,
            mode: None,
            jobs: None,
            storage_profile: None,
            ffmpeg_path: None,
            output_directory: None,
            color: None,
            log_file: None,
            custom_profiles: TextMap::new(),
        }
    }
}

/// The built-in settings.
#[derive(Debug, PartialEq, Eq)]
pub struct DefaultConfig {
    /// Device profile.
    pub profile: String,
    /// Target codec.
    pub codec: String,
    /// Target bitrate.
    pub bitrate: String,
    /// Target layout.
    pub channels: String,
    /// Output mode.
    pub mode: String,
    /// How many files are worked on at once.
    pub jobs: usize,
    /// The kind of storage.
    pub storage_profile: String,
    /// Use of color.
    pub color: String,
}

/// The built-in settings.
pub struct DefaultConfigView {
    /// Device profile.
    pub profile: Seq<char>,
    /// Target codec.
    pub codec: Seq<char>,
    /// Target bitrate.
    pub bitrate: Seq<char>,
    /// Target layout.
    pub channels: Seq<char>,
    /// Output mode.
    pub mode: Seq<char>,
    /// How many files are worked on at once.
    pub jobs: usize,
    /// The kind of storage.
    pub storage_profile: Seq<char>,
    /// Use of color.
    pub color: Seq<char>,
}

impl View for DefaultConfig {
    type V = DefaultConfigView;

    open spec fn view(&self) -> DefaultConfigView {
        DefaultConfigView {
            profile: self.profile@,
            codec: self.codec@,
            bitrate: self.bitrate@,
            channels: self.channels@,
            mode: self.mode@,
            jobs: self.jobs,
            storage_profile: self.storage_profile@,
            color: self.color@,
        }
    }
}

impl DeepView for DefaultConfig {
    type V = DefaultConfigView;

    open spec fn deep_view(&self) -> DefaultConfigView {
        self@
    }
}

impl Clone for DefaultConfig {
    fn clone(&self) -> (r: Self)
        ensures
            r@ == self@,
    {
        let r = DefaultConfig {
            profile: self.profile.clone(),
            codec: self.codec.clone(),
            bitrate: self.bitrate.clone(),
            channels: self.channels.clone(),
            mode: self.mode.clone(),
            jobs: self.jobs,
            storage_profile: self.storage_profile.clone(),
            color: self.color.clone(),
        };
        r
    }
}

/// The built-in settings.
pub open spec fn built_in() -> DefaultConfigView {
    DefaultConfigView {
        profile: "generic-tv"@,
        codec: "ac3"@,
        bitrate: "640k"@,
        channels: "keep-up-to-5.1"@,
        mode: "add"@,
        jobs: 2,
        storage_profile: "balanced"@,
        color: "auto"@,
    }
}

impl Default for DefaultConfig {
    fn default() -> (r: Self)
        ensures
            r@ == built_in(),
    {
        DefaultConfig {
            profile: "generic-tv".to_owned(),
            codec: "ac3".to_owned(),
            bitrate: "640k".to_owned(),
            channels: "keep-up-to-5.1".to_owned(),
            mode: "add".to_owned(),
            jobs: 2,
            storage_profile: "balanced".to_owned(),
            color: "auto".to_owned(),
        }
    }
}

/// The settings that hold, each with where it comes from.
#[derive(Debug, PartialEq, Eq)]
pub struct EffectiveConfig {
    /// Device profile.
    pub profile: Sourced<String>,
    /// Target codec.
    pub codec: Sourced<String>,
    /// Target bitrate.
    pub bitrate: Sourced<String>,
    /// Target layout.
    pub channels: Sourced<String>,
    /// Output mode.
    pub mode: Sourced<String>,
    /// How many files are worked on at once.
    pub jobs: Sourced<usize>,
    /// The kind of storage.
    pub storage_profile: Sourced<String>,
    /// The conversion tool or its directory.
    pub ffmpeg_path: Option<Sourced<FilePath>>,
    /// Directory of outputs.
    pub output_directory: Option<Sourced<FilePath>>,
    /// Use of color.
    pub color: Sourced<String>,
    /// Log file.
    pub log_file: Option<Sourced<FilePath>>,
    /// Profiles of the user.
    pub custom_profiles: TextMap<ProfileFile>,
}

/// The settings that hold, each with where it comes from.
pub struct EffectiveConfigView {
    /// Device profile.
    pub profile: SourcedView<Seq<char>>,
    /// Target codec.
    pub codec: SourcedView<Seq<char>>,
    /// Target bitrate.
    pub bitrate: SourcedView<Seq<char>>,
    /// Target layout.
    pub channels: SourcedView<Seq<char>>,
    /// Output mode.
    pub mode: SourcedView<Seq<char>>,
    /// How many files are worked on at once.
    pub jobs: SourcedView<usize>,
    /// The kind of storage.
    pub storage_profile: SourcedView<Seq<char>>,
    /// The conversion tool or its directory.
    pub ffmpeg_path: Option<SourcedView<Seq<u8>>>,
    /// Directory of outputs.
    pub output_directory: Option<SourcedView<Seq<u8>>>,
    /// Use of color.
    pub color: SourcedView<Seq<char>>,
    /// Log file.
    pub log_file: Option<SourcedView<Seq<u8>>>,
    /// Profiles of the user.
    pub custom_profiles: Map<Seq<char>, ProfileFileView>,
}

impl View for EffectiveConfig {
    type V = EffectiveConfigView;

    open spec fn view(&self) -> EffectiveConfigView {
        EffectiveConfigView {
            profile: self.profile@,
            codec: self.codec@,
            bitrate: self.bitrate@,
            channels: self.channels@,
            mode: self.mode@,
            jobs: self.jobs@,
            storage_profile: self.storage_profile@,
            ffmpeg_path: self.ffmpeg_path.deep_view(),
            output_directory: self.output_directory.deep_view(),
            color: self.color@,
            log_file: self.log_file.deep_view(),
            custom_profiles: self.custom_profiles@,
        }
    }
}

impl DeepView for EffectiveConfig {
    type V = EffectiveConfigView;

    open spec fn deep_view(&self) -> EffectiveConfigView {
        self@
    }
}

/// Where the configuration file is.
#[derive(Debug, PartialEq, Eq)]
pub struct ConfigPath {
    /// The file.
    pub path: FilePath,
    /// Whether it must be there.
    pub required: bool,
}

/// Where the configuration file is.
pub struct ConfigPathView {
    /// The file.
    pub path: Seq<u8>,
    /// Whether it must be there.
    pub required: bool,
}

impl View for ConfigPath {
    type V = ConfigPathView;

    open spec fn view(&self) -> ConfigPathView {
        ConfigPathView {
            path: self.path@,
            required: self.required,
        }
    }
}

impl DeepView for ConfigPath {
    type V = ConfigPathView;

    open spec fn deep_view(&self) -> ConfigPathView {
        self@
    }
}

impl Clone for ConfigPath {
    fn clone(&self) -> (r: Self)
        ensures
            r@ == self@,
    {
        let r = ConfigPath {
            path: self.path.clone(),
            required: self.required,
        };
        r
    }
}

/// Why the settings cannot be used.
#[derive(Debug, PartialEq, Eq)]
pub enum ConfigError {
    /// The platform has no directory for configuration.
    NoPlatformDirectory,
    /// The file could not be read.
    Read {
        /// The file.
        path: FilePath,
        /// What went wrong.
        source: IoError,
    },
    /// The file is no regular one.
    NotRegular {
        /// The file.
        path: FilePath,
    },
    /// The file is too large.
    TooLarge {
        /// The file.
        path: FilePath,
    },
    /// The file is not valid.
    Toml {
        /// Why not.
        reason: String,
    },
    /// The file has a version that is not known.
    UnsupportedVersion {
        /// The version.
        version: u32,
    },
    /// A setting has a value that it cannot have.
    InvalidValue {
        /// The setting.
        field: &'static str,
        /// Why not.
        reason: String,
    },
    /// There is no such profile.
    UnknownProfile {
        /// Its name.
        name: String,
    },
    /// A profile of the user has the name of a built-in one.
    ProfileCollision {
        /// Its name.
        name: String,
    },
    /// A variable of the environment holds no text.
    InvalidEnvironment {
        /// Its name.
        name: &'static str,
    },
    /// The file could not be made.
    Create {
        /// The file.
        path: FilePath,
        /// What went wrong.
        source: IoError,
    },
}

/// Why the settings cannot be used.
pub enum ConfigErrorView {
    /// The platform has no directory for configuration.
    NoPlatformDirectory,
    /// The file could not be read.
    Read {
        /// The file.
        path: Seq<u8>,
        /// What went wrong.
        source: IoErrorView,
    },
    /// The file is no regular one.
    NotRegular {
        /// The file.
        path: Seq<u8>,
    },
    /// The file is too large.
    TooLarge {
        /// The file.
        path: Seq<u8>,
    },
    /// The file is not valid.
    Toml {
        /// Why not.
        reason: Seq<char>,
    },
    /// The file has a version that is not known.
    UnsupportedVersion {
        /// The version.
        version: u32,
    },
    /// A setting has a value that it cannot have.
    InvalidValue {
        /// The setting.
        field: Seq<char>,
        /// Why not.
        reason: Seq<char>,
    },
    /// There is no such profile.
    UnknownProfile {
        /// Its name.
        name: Seq<char>,
    },
    /// A profile of the user has the name of a built-in one.
    ProfileCollision {
        /// Its name.
        name: Seq<char>,
    },
    /// A variable of the environment holds no text.
    InvalidEnvironment {
        /// Its name.
        name: Seq<char>,
    },
    /// The file could not be made.
    Create {
        /// The file.
        path: Seq<u8>,
        /// What went wrong.
        source: IoErrorView,
    },
}

impl View for ConfigError {
    type V = ConfigErrorView;

    open spec fn view(&self) -> ConfigErrorView {
        match self {
            ConfigError::NoPlatformDirectory => ConfigErrorView::NoPlatformDirectory,
            ConfigError::Read { path, source } => ConfigErrorView::Read {
                path: path@,
                source: source@,
            },
            ConfigError::NotRegular { path } => ConfigErrorView::NotRegular {
                path: path@,
            },
            ConfigError::TooLarge { path } => ConfigErrorView::TooLarge {
                path: path@,
            },
            ConfigError::Toml { reason } => ConfigErrorView::Toml {
                reason: reason@,
            },
            ConfigError::UnsupportedVersion { version } => ConfigErrorView::UnsupportedVersion {
                version: *version,
            },
            ConfigError::InvalidValue { field, reason } => ConfigErrorView::InvalidValue {
                field: field@,
                reason: reason@,
            },
            ConfigError::UnknownProfile { name } => ConfigErrorView::UnknownProfile {
                name: name@,
            },
            ConfigError::ProfileCollision { name } => ConfigErrorView::ProfileCollision {
                name: name@,
            },
            ConfigError::InvalidEnvironment { name } => ConfigErrorView::InvalidEnvironment {
                name: name@,
            },
            ConfigError::Create { path, source } => ConfigErrorView::Create {
                path: path@,
                source: source@,
            },
        }
    }
}

impl DeepView for ConfigError {
    type V = ConfigErrorView;

    open spec fn deep_view(&self) -> ConfigErrorView {
        self@
    }
}

impl ConfigErrorView {
    /// The user-facing description.
    pub open spec fn message(self) -> Seq<char> {
        match self {
            ConfigErrorView::NoPlatformDirectory => "could not determine the platform configuration directory"@,
            ConfigErrorView::Read { path, source } => "failed to read configuration "@ + text::lossy(path) + ": "@ + source.message,
            ConfigErrorView::NotRegular { path } => "configuration is not a regular file: "@ + text::lossy(path),
            ConfigErrorView::TooLarge { path } => "configuration exceeds the 1 MiB limit: "@ + text::lossy(path),
            ConfigErrorView::Toml { reason } => "invalid configuration TOML: "@ + reason,
            ConfigErrorView::UnsupportedVersion { version } => "unsupported configuration version "@ + number::decimal(version as int),
            ConfigErrorView::InvalidValue { field, reason } => "invalid configuration field `"@ + field + "`: "@ + reason,
            ConfigErrorView::UnknownProfile { name } => "unknown profile `"@ + name + "`"@,
            ConfigErrorView::ProfileCollision { name } => "configured profile `"@ + name + "` collides with a built-in profile"@,
            ConfigErrorView::InvalidEnvironment { name } => "environment variable "@ + name + " must contain Unicode text"@,
            ConfigErrorView::Create { path, source } => "failed to create configuration "@ + text::lossy(path) + ": "@ + source.message,
        }
    }
}

impl ConfigError {
    /// The user-facing description.
    pub fn message(&self) -> (r: String)
        ensures
            r@ == self@.message(),
    {
        match self {
            ConfigError::NoPlatformDirectory => "could not determine the platform configuration directory".to_owned(),
            ConfigError::Read { path, source } => {
                let mut out = text::concat3("failed to read configuration ", path.display().as_str(), ": ");
                text::push_text(&mut out, source.message());
                out
            },
            ConfigError::NotRegular { path } => text::concat2("configuration is not a regular file: ", path.display().as_str()),
            ConfigError::TooLarge { path } => text::concat2("configuration exceeds the 1 MiB limit: ", path.display().as_str()),
            ConfigError::Toml { reason } => text::concat2("invalid configuration TOML: ", reason.as_str()),
            ConfigError::UnsupportedVersion { version } => text::concat2("unsupported configuration version ", number::show_u64(*version as u64).as_str()),
            ConfigError::InvalidValue { field, reason } => {
                let mut out = text::concat3("invalid configuration field `", field, "`: ");
                text::push_text(&mut out, reason.as_str());
                out
            },
            ConfigError::UnknownProfile { name } => text::concat3("unknown profile `", name.as_str(), "`"),
            ConfigError::ProfileCollision { name } => text::concat3("configured profile `", name.as_str(), "` collides with a built-in profile"),
            ConfigError::InvalidEnvironment { name } => text::concat3("environment variable ", name, " must contain Unicode text"),
            ConfigError::Create { path, source } => {
                let mut out = text::concat3("failed to create configuration ", path.display().as_str(), ": ");
                text::push_text(&mut out, source.message());
                out
            },
        }
    }
}

/// A setting has a value that it cannot have.
pub open spec fn invalid_value(field: Seq<char>, reason: Seq<char>) -> ConfigErrorView {
    ConfigErrorView::InvalidValue { field, reason }
}

fn invalid(field: &'static str, reason: String) -> (r: ConfigError)
    ensures
        r@ == invalid_value(field@, reason@),
{
    ConfigError::InvalidValue { field, reason }
}

/// Bits per second as text: a number, in thousands with a `k` and in millions with an `m` behind
/// it, in either case.
pub open spec fn bitrate_value(value: Seq<char>) -> Option<int> {
    let s = text::lower(text::trim(value));
    let (digits, factor) = if s.len() > 0 && s.last() == 'k' {
        (s.drop_last(), 1_000int)
    } else if s.len() > 0 && s.last() == 'm' {
        (s.drop_last(), 1_000_000int)
    } else {
        (s, 1int)
    };
    match number::read_unsigned(digits, u64::MAX as int) {
        Some(n) => if n * factor <= u64::MAX {
            Some(n * factor)
        } else {
            None
        },
        None => None,
    }
}

/// Bits per second as text: a number, in thousands with a `k` and in millions with an `m` behind
/// it, in either case.
pub fn parse_bitrate(value: &str) -> (r: Result<u64, ConfigError>)
    ensures
        match r {
            Ok(n) => bitrate_value(value@) == Some(n as int),
            Err(e) => bitrate_value(value@) is None && e@ == invalid_value(
                "bitrate"@,
                "invalid bitrate `"@ + value@ + "`"@,
            ),
        },
{
    let normalized = text::to_lower(text::trimmed(value).as_str());
    let chars = text::chars_of(normalized.as_str());
    let n: usize = chars.len();
    let factor: u64 = if n > 0 && chars[n - 1] == 'k' {
        1_000
    } else if n > 0 && chars[n - 1] == 'm' {
        1_000_000
    } else {
        1
    };
    let digits = if factor == 1 {
        normalized
    } else {
        let d = text::slice_text(&chars, 0, n - 1);
        proof {
            assert(d@ =~= normalized@.drop_last());
        }
        d
    };
    let product = match number::parse_u64_text(digits.as_str()) {
        Some(count) => count.checked_mul(factor),
        None => None,
    };
    match product {
        Some(rate) => Ok(rate),
        None => Err(invalid("bitrate", text::concat3("invalid bitrate `", value, "`"))),
    }
}

/// A layout as text.
pub open spec fn layout_value(value: Seq<char>) -> Option<TargetLayout> {
    if value == "keep-up-to-5.1"@ {
        Some(TargetLayout::KeepUpTo51)
    } else if value == "stereo"@ {
        Some(TargetLayout::Stereo)
    } else if value == "5.1"@ {
        Some(TargetLayout::Surround51)
    } else {
        None
    }
}

/// A layout as text.
pub fn find_layout(value: &str) -> (r: Option<TargetLayout>)
    ensures
        r == layout_value(value@),
{
    if text::same(value, "keep-up-to-5.1") {
        Some(TargetLayout::KeepUpTo51)
    } else if text::same(value, "stereo") {
        Some(TargetLayout::Stereo)
    } else if text::same(value, "5.1") {
        Some(TargetLayout::Surround51)
    } else {
        None
    }
}

fn parse_layout(value: &str) -> (r: Result<TargetLayout, ConfigError>)
    ensures
        match r {
            Ok(l) => layout_value(value@) == Some(l),
            Err(e) => layout_value(value@) is None && e@ == invalid_value(
                "channels"@,
                "unsupported layout `"@ + value@ + "`"@,
            ),
        },
{
    match find_layout(value) {
        Some(layout) => Ok(layout),
        None => Err(invalid("channels", text::concat3("unsupported layout `", value, "`"))),
    }
}

/// A codec family as text.
pub open spec fn family_value(value: Seq<char>) -> Option<AudioCodecFamily> {
    if value == "ac3"@ {
        Some(AudioCodecFamily::Ac3)
    } else if value == "eac3"@ {
        Some(AudioCodecFamily::Eac3)
    } else if value == "aac"@ {
        Some(AudioCodecFamily::Aac)
    } else if value == "mp3"@ {
        Some(AudioCodecFamily::Mp3)
    } else if value == "dts"@ {
        Some(AudioCodecFamily::Dts)
    } else if value == "truehd"@ {
        Some(AudioCodecFamily::TrueHd)
    } else if value == "flac"@ {
        Some(AudioCodecFamily::Flac)
    } else if value == "opus"@ {
        Some(AudioCodecFamily::Opus)
    } else if value == "vorbis"@ {
        Some(AudioCodecFamily::Vorbis)
    } else if value == "pcm"@ {
        Some(AudioCodecFamily::Pcm)
    } else {
        None
    }
}

/// A codec family that is not known.
pub open spec fn family_fault(value: Seq<char>) -> ConfigErrorView {
    invalid_value("profile codec"@, "unknown codec family `"@ + value + "`"@)
}

fn parse_family(value: &str) -> (r: Result<AudioCodecFamily, ConfigError>)
    ensures
        match r {
            Ok(f) => family_value(value@) == Some(f),
            Err(e) => family_value(value@) is None && e@ == family_fault(value@),
        },
{
    if text::same(value, "ac3") {
        Ok(AudioCodecFamily::Ac3)
    } else if text::same(value, "eac3") {
        Ok(AudioCodecFamily::Eac3)
    } else if text::same(value, "aac") {
        Ok(AudioCodecFamily::Aac)
    } else if text::same(value, "mp3") {
        Ok(AudioCodecFamily::Mp3)
    } else if text::same(value, "dts") {
        Ok(AudioCodecFamily::Dts)
    } else if text::same(value, "truehd") {
        Ok(AudioCodecFamily::TrueHd)
    } else if text::same(value, "flac") {
        Ok(AudioCodecFamily::Flac)
    } else if text::same(value, "opus") {
        Ok(AudioCodecFamily::Opus)
    } else if text::same(value, "vorbis") {
        Ok(AudioCodecFamily::Vorbis)
    } else if text::same(value, "pcm") {
        Ok(AudioCodecFamily::Pcm)
    } else {
        Err(invalid("profile codec", text::concat3("unknown codec family `", value, "`")))
    }
}

/// The names of the built-in profiles.
pub open spec fn builtin_names() -> Seq<Seq<char>> {
    seq!["generic-tv"@, "samsung"@, "lg"@, "dlna"@]
}

/// The built-in profile of this name.
pub open spec fn builtin_profile(name: Seq<char>) -> Option<ProfileNameView> {
    if name == "generic-tv"@ {
        Some(ProfileNameView::GenericTv)
    } else if name == "samsung"@ {
        Some(ProfileNameView::Samsung)
    } else if name == "lg"@ {
        Some(ProfileNameView::Lg)
    } else if name == "dlna"@ {
        Some(ProfileNameView::Dlna)
    } else {
        None
    }
}

fn find_builtin(name: &str) -> (r: Option<ProfileName>)
    ensures
        match r {
            Some(p) => builtin_profile(name@) == Some(p@),
            None => builtin_profile(name@) is None,
        },
{
    if text::same(name, "generic-tv") {
        Some(ProfileName::GenericTv)
    } else if text::same(name, "samsung") {
        Some(ProfileName::Samsung)
    } else if text::same(name, "lg") {
        Some(ProfileName::Lg)
    } else if text::same(name, "dlna") {
        Some(ProfileName::Dlna)
    } else {
        None
    }
}

/// The policy of a profile before the user has a say.
pub open spec fn base_policy(name: ProfileNameView) -> PolicyView {
    PolicyView {
        name,
        description: name.description(),
        conservative_baseline: name.is_baseline(),
        rules: policy::baseline_rules(),
        unknown_codec: UnknownCodecBehavior::Reject,
    }
}

/// What the user says of codecs that are not known.
pub open spec fn behavior_of(value: UnknownCodecFile) -> UnknownCodecBehavior {
    match value {
        UnknownCodecFile::Reject => UnknownCodecBehavior::Reject,
        UnknownCodecFile::TranscodeWithFallback => UnknownCodecBehavior::TranscodeWithFallback,
    }
}

/// The rule that the user gives.
pub open spec fn rule_of(rule: CodecRuleFileView) -> CodecRuleView {
    CodecRuleView {
        maximum_channels: rule.maximum_channels,
        allowed_layouts: match rule.allowed_layouts {
            Some(names) => Some(table::text_set(names)),
            None => None,
        },
    }
}

/// A policy with the rules that the user gives, each in place of the one for its family.
pub open spec fn with_rules(
    start: PolicyView,
    rules: Seq<(Seq<char>, CodecRuleFileView)>,
) -> Result<PolicyView, ConfigErrorView>
    decreases rules.len(),
{
    if rules.len() == 0 {
        Ok(start)
    } else {
        match with_rules(start, rules.drop_last()) {
            Err(e) => Err(e),
            Ok(before) => {
                let (name, rule) = rules.last();
                match family_value(name) {
                    None => Err(family_fault(name)),
                    Some(family) => if rule.maximum_channels == Some(0u16) {
                        Err(
                            invalid_value(
                                "maximum-channels"@,
                                (ModelErrorView::ZeroValue { field: "channels"@ }).message(),
                            ),
                        )
                    } else {
                        Ok(
                            PolicyView {
                                rules: before.rules.insert(family, rule_of(rule)),
                                ..before
                            },
                        )
                    },
                }
            },
        }
    }
}

/// The policy of this name: a built-in profile or one of the user.
pub open spec fn policy_named(
    name: Seq<char>,
    custom: Map<Seq<char>, ProfileFileView>,
) -> Result<PolicyView, ConfigErrorView> {
    let known = match builtin_profile(name) {
        Some(p) => Some(p),
        None => if custom.dom().contains(name) {
            Some(ProfileNameView::Custom(name))
        } else {
            None
        },
    };
    match known {
        None => Err(ConfigErrorView::UnknownProfile { name }),
        Some(p) => if custom.dom().contains(name) {
            with_rules(
                PolicyView { unknown_codec: behavior_of(custom[name].unknown_codec), ..base_policy(p) },
                table::listing(custom[name].codecs),
            )
        } else {
            Ok(base_policy(p))
        },
    }
}

fn convert_rule(rule: &CodecRuleFile) -> (r: Result<CodecRule, ConfigError>)
    ensures
        match r {
            Ok(c) => rule@.maximum_channels != Some(0u16) && c@ == rule_of(rule@),
            Err(e) => rule@.maximum_channels == Some(0u16) && e@ == invalid_value(
                "maximum-channels"@,
                (ModelErrorView::ZeroValue { field: "channels"@ }).message(),
            ),
        },
{
    let channels = match rule.maximum_channels {
        Some(n) => match ChannelCount::new(n) {
            Ok(c) => Some(c),
            Err(e) => {
                return Err(invalid("maximum-channels", e.message()));
            },
        },
        None => None,
    };
    let layouts = match &rule.allowed_layouts {
        Some(names) => Some(TextSet::from_texts(text::copy_texts(names))),
        None => None,
    };
    Ok(CodecRule::new(channels, layouts))
}

fn apply_rules(start: CompatibilityPolicy, rules: &TextMap<CodecRuleFile>) -> (r: Result<
    CompatibilityPolicy,
    ConfigError,
>)
    ensures
        match r {
            Ok(p) => with_rules(start@, table::listing(rules@)) == Ok::<_, ConfigErrorView>(p@),
            Err(e) => with_rules(start@, table::listing(rules@)) == Err::<PolicyView, _>(e@),
        },
{
    let ghost first = start@;
    let mut policy = start;
    rules.order();
    let ghost pairs = rules.pairs();
    let mut i: usize = 0;
    while i < rules.len()
        invariant
            pairs == rules.pairs(),
            pairs == table::listing(rules@),
            first == start@,
            i <= pairs.len(),
            with_rules(first, pairs.take(i as int)) == Ok::<_, ConfigErrorView>(policy@),
        decreases pairs.len() - i,
    {
        proof {
            assert(pairs.take(i + 1).drop_last() =~= pairs.take(i as int));
            assert(pairs.take(i + 1).last() == pairs[i as int]);
        }
        let family = match parse_family(rules.key_at(i)) {
            Ok(f) => f,
            Err(e) => {
                proof {
                    lemma_rules_fault(first, pairs, i + 1);
                }
                return Err(e);
            },
        };
        match convert_rule(rules.value_at(i)) {
            Ok(rule) => {
                policy = policy.with_rule(family, rule);
            },
            Err(e) => {
                proof {
                    lemma_rules_fault(first, pairs, i + 1);
                }
                return Err(e);
            },
        }
        i = i + 1;
    }
    proof {
        assert(pairs.take(i as int) =~= pairs);
    }
    Ok(policy)
}

proof fn lemma_rules_fault(
    start: PolicyView,
    rules: Seq<(Seq<char>, CodecRuleFileView)>,
    n: int,
)
    requires
        0 <= n <= rules.len(),
        with_rules(start, rules.take(n)) is Err,
    ensures
        with_rules(start, rules) == with_rules(start, rules.take(n)),
    decreases rules.len(),
{
    if n == rules.len() {
        assert(rules.take(n) =~= rules);
    } else {
        assert(rules.drop_last().take(n) =~= rules.take(n));
        lemma_rules_fault(start, rules.drop_last(), n);
    }
}

/// The target that three settings stand for: the first fault of bitrate, layout, codec and the
/// bitrate for the codec.
pub open spec fn target_of(
    codec: Seq<char>,
    bitrate: Seq<char>,
    channels: Seq<char>,
) -> Result<TargetView, ConfigErrorView> {
    match (bitrate_value(bitrate), layout_value(channels)) {
        (None, _) => Err(
            invalid_value("bitrate"@, "invalid bitrate `"@ + bitrate + "`"@),
        ),
        (Some(_), None) => Err(
            invalid_value("channels"@, "unsupported layout `"@ + channels + "`"@),
        ),
        (Some(rate), Some(layout)) => {
            let bits = rate as u64;
            if codec == "ac3"@ {
                if target::ac3_bitrates().contains(bits) {
                    Ok(TargetView::Ac3 { bitrate: bits, layout })
                } else {
                    Err(
                        invalid_value(
                            "bitrate"@,
                            (TargetBitrateErrorView::UnsupportedAc3 { bitrate: bits }).message(),
                        ),
                    )
                }
            } else if codec == "eac3"@ {
                if 32_000 <= bits <= 6_144_000 {
                    Ok(TargetView::Eac3 { bitrate: bits, layout })
                } else {
                    Err(
                        invalid_value(
                            "bitrate"@,
                            (TargetBitrateErrorView::OutOfRange {
                                codec: "E-AC-3"@,
                                bitrate: bits,
                                minimum: 32_000,
                                maximum: 6_144_000,
                            }).message(),
                        ),
                    )
                }
            } else if codec == "aac"@ {
                if 8_000 <= bits <= 1_024_000 {
                    Ok(TargetView::Aac { bitrate: bits, layout })
                } else {
                    Err(
                        invalid_value(
                            "bitrate"@,
                            (TargetBitrateErrorView::OutOfRange {
                                codec: "AAC"@,
                                bitrate: bits,
                                minimum: 8_000,
                                maximum: 1_024_000,
                            }).message(),
                        ),
                    )
                }
            } else {
                Err(invalid_value("codec"@, "unsupported codec `"@ + codec + "`"@))
            }
        },
    }
}

fn invalid_bitrate(error: TargetBitrateError) -> (r: ConfigError)
    ensures
        r@ == invalid_value("bitrate"@, error@.message()),
{
    invalid("bitrate", error.message())
}

/// The target that three settings stand for.
pub fn build_target(codec: &str, bitrate: &str, channels: &str) -> (r: Result<
    AudioTarget,
    ConfigError,
>)
    ensures
        match r {
            Ok(t) => target_of(codec@, bitrate@, channels@) == Ok::<_, ConfigErrorView>(t@),
            Err(e) => target_of(codec@, bitrate@, channels@) == Err::<TargetView, _>(e@),
        },
{
    let rate = match parse_bitrate(bitrate) {
        Ok(n) => n,
        Err(e) => {
            return Err(e);
        },
    };
    let layout = match parse_layout(channels) {
        Ok(l) => l,
        Err(e) => {
            return Err(e);
        },
    };
    if text::same(codec, "ac3") {
        match Ac3Bitrate::new(rate) {
            Ok(bitrate) => Ok(AudioTarget::Ac3 { bitrate, layout }),
            Err(e) => Err(invalid_bitrate(e)),
        }
    } else if text::same(codec, "eac3") {
        match Eac3Bitrate::new(rate) {
            Ok(bitrate) => Ok(AudioTarget::Eac3 { bitrate, layout }),
            Err(e) => Err(invalid_bitrate(e)),
        }
    } else if text::same(codec, "aac") {
        match AacBitrate::new(rate) {
            Ok(bitrate) => Ok(AudioTarget::Aac { bitrate, layout }),
            Err(e) => Err(invalid_bitrate(e)),
        }
    } else {
        Err(invalid("codec", text::concat3("unsupported codec `", codec, "`")))
    }
}

/// An output mode as text.
pub open spec fn mode_value(value: Seq<char>) -> Option<OutputMode> {
    if value == "add"@ {
        Some(OutputMode::Add)
    } else if value == "replace"@ {
        Some(OutputMode::Replace)
    } else if value == "only-new"@ {
        Some(OutputMode::OnlyNew)
    } else {
        None
    }
}

/// An output mode as text.
pub fn parse_mode(value: &str) -> (r: Option<OutputMode>)
    ensures
        r == mode_value(value@),
{
    if text::same(value, "add") {
        Some(OutputMode::Add)
    } else if text::same(value, "replace") {
        Some(OutputMode::Replace)
    } else if text::same(value, "only-new") {
        Some(OutputMode::OnlyNew)
    } else {
        None
    }
}

/// A mode that there is not.
pub open spec fn mode_fault(value: Seq<char>) -> ConfigErrorView {
    invalid_value("mode"@, "unsupported mode `"@ + value + "`"@)
}

/// The keys of a listing.
pub open spec fn keys_of<V>(pairs: Seq<(Seq<char>, V)>) -> Seq<Seq<char>> {
    Seq::new(pairs.len(), |i: int| pairs[i].0)
}

impl EffectiveConfig {
    /// The policy of the selected profile.
    pub fn compatibility_policy(&self) -> (r: Result<CompatibilityPolicy, ConfigError>)
        ensures
            match r {
                Ok(p) => policy_named(self@.profile.value, self@.custom_profiles) == Ok::<
                    _,
                    ConfigErrorView,
                >(p@),
                Err(e) => policy_named(self@.profile.value, self@.custom_profiles) == Err::<
                    PolicyView,
                    _,
                >(e@),
            },
    {
        self.compatibility_policy_named(self.profile.value().as_str())
    }

    /// The policy of this name: a built-in profile or one of the user.
    pub fn compatibility_policy_named(&self, name: &str) -> (r: Result<
        CompatibilityPolicy,
        ConfigError,
    >)
        ensures
            match r {
                Ok(p) => policy_named(name@, self@.custom_profiles) == Ok::<_, ConfigErrorView>(
                    p@,
                ),
                Err(e) => policy_named(name@, self@.custom_profiles) == Err::<PolicyView, _>(e@),
            },
    {
        let custom = self.custom_profiles.get(name);
        let profile_name = match find_builtin(name) {
            Some(p) => p,
            None => match custom {
                Some(_) => ProfileName::Custom(name.to_owned()),
                None => {
                    return Err(ConfigError::UnknownProfile { name: name.to_owned() });
                },
            },
        };
        let policy = CompatibilityPolicy::for_profile(profile_name);
        match custom {
            Some(profile) => {
                let behavior = match profile.unknown_codec {
                    UnknownCodecFile::Reject => UnknownCodecBehavior::Reject,
                    UnknownCodecFile::TranscodeWithFallback =>
                        UnknownCodecBehavior::TranscodeWithFallback,
                };
                apply_rules(policy.with_unknown_codec(behavior), &profile.codecs)
            },
            None => Ok(policy),
        }
    }

    /// The target that the settings stand for.
    pub fn audio_target(&self) -> (r: Result<AudioTarget, ConfigError>)
        ensures
            match r {
                Ok(t) => target_of(
                    self@.codec.value,
                    self@.bitrate.value,
                    self@.channels.value,
                ) == Ok::<_, ConfigErrorView>(t@),
                Err(e) => target_of(
                    self@.codec.value,
                    self@.bitrate.value,
                    self@.channels.value,
                ) == Err::<TargetView, _>(e@),
            },
    {
        build_target(
            self.codec.value().as_str(),
            self.bitrate.value().as_str(),
            self.channels.value().as_str(),
        )
    }

    /// The output mode that the settings stand for.
    pub fn output_mode(&self) -> (r: Result<OutputMode, ConfigError>)
        ensures
            match r {
                Ok(m) => mode_value(self@.mode.value) == Some(m),
                Err(e) => mode_value(self@.mode.value) is None && e@ == mode_fault(
                    self@.mode.value,
                ),
            },
    {
        let value = self.mode.value().as_str();
        match parse_mode(value) {
            Some(m) => Ok(m),
            None => Err(invalid("mode", text::concat3("unsupported mode `", value, "`"))),
        }
    }

    /// The names of the built-in profiles and of those of the user.
    pub fn profile_names(&self) -> (r: Vec<&str>)
        ensures
            r.deep_view() == builtin_names() + keys_of(table::listing(self@.custom_profiles)),
    {
        let mut out: Vec<&str> = Vec::new();
        out.push("generic-tv");
        out.push("samsung");
        out.push("lg");
        out.push("dlna");
        self.custom_profiles.order();
        let ghost pairs = self.custom_profiles.pairs();
        let mut i: usize = 0;
        proof {
            assert(out.deep_view() =~= builtin_names() + keys_of(pairs.take(0)));
        }
        while i < self.custom_profiles.len()
            invariant
                pairs == self.custom_profiles.pairs(),
                i <= pairs.len(),
                out.deep_view() == builtin_names() + keys_of(pairs.take(i as int)),
            decreases pairs.len() - i,
        {
            let ghost before = out.deep_view();
            let key = self.custom_profiles.key_at(i);
            out.push(key);
            proof {
                assert(out.deep_view() =~= before.push(key@));
                assert(keys_of(pairs.take(i + 1)) =~= keys_of(pairs.take(i as int)).push(key@));
                assert(out.deep_view() =~= builtin_names() + keys_of(pairs.take(i + 1)));
            }
            i = i + 1;
        }
        proof {
            assert(pairs.take(i as int) =~= pairs);
        }
        out
    }
}

/// Which of the places decides a setting, in this order.
pub open spec fn winner<V>(
    cli: Option<V>,
    environment: Option<V>,
    file: Option<V>,
    default: V,
) -> SourcedView<V> {
    match optional_winner(cli, environment, file) {
        Some(w) => w,
        None => SourcedView { value: default, source: ConfigSource::Default },
    }
}

/// Which of the places decides a setting that need not be there.
pub open spec fn optional_winner<V>(
    cli: Option<V>,
    environment: Option<V>,
    file: Option<V>,
) -> Option<SourcedView<V>> {
    match (cli, environment, file) {
        (Some(value), _, _) => Some(SourcedView { value, source: ConfigSource::Cli }),
        (None, Some(value), _) => Some(SourcedView { value, source: ConfigSource::Environment }),
        (None, None, Some(value)) => Some(SourcedView { value, source: ConfigSource::File }),
        (None, None, None) => None,
    }
}

/// What is told of a setting that need not be there.
pub open spec fn told<T: View>(value: Option<T>) -> Option<T::V> {
    match value {
        Some(v) => Some(v@),
        None => None,
    }
}

fn pick<T: View>(
    cli: Option<T>,
    environment: Option<T>,
    file: Option<T>,
    default: T,
) -> (r: Sourced<T>)
    ensures
        r@ == winner(told(cli), told(environment), told(file), default@),
{
    match pick_optional(cli, environment, file) {
        Some(w) => w,
        None => Sourced::new(default, ConfigSource::Default),
    }
}

fn pick_optional<T: View>(
    cli: Option<T>,
    environment: Option<T>,
    file: Option<T>,
) -> (r: Option<Sourced<T>>)
    ensures
        r.deep_view() == optional_winner(told(cli), told(environment), told(file)),
{
    match cli {
        Some(value) => Some(Sourced::new(value, ConfigSource::Cli)),
        None => match environment {
            Some(value) => Some(Sourced::new(value, ConfigSource::Environment)),
            None => match file {
                Some(value) => Some(Sourced::new(value, ConfigSource::File)),
                None => None,
            },
        },
    }
}

/// How many files are worked on at once where no place says it: one on storage that seeks slowly.
pub open spec fn default_jobs(jobs: usize, storage_profile: Seq<char>) -> usize {
    if storage_profile == "hdd"@ {
        1
    } else {
        jobs
    }
}

fn pick_default_jobs(jobs: usize, storage_profile: &str) -> (r: usize)
    ensures
        r == default_jobs(jobs, storage_profile@),
{
    if text::same(storage_profile, "hdd") {
        1
    } else {
        jobs
    }
}

/// The settings of all places, each from the first place that has it.
pub open spec fn merged(
    defaults: DefaultConfigView,
    file: PartialConfigView,
    environment: PartialConfigView,
    cli: PartialConfigView,
) -> EffectiveConfigView {
    let storage_profile = winner(
        cli.storage_profile,
        environment.storage_profile,
        file.storage_profile,
        defaults.storage_profile,
    );
    EffectiveConfigView {
        profile: winner(cli.profile, environment.profile, file.profile, defaults.profile),
        codec: winner(cli.codec, environment.codec, file.codec, defaults.codec),
        bitrate: winner(cli.bitrate, environment.bitrate, file.bitrate, defaults.bitrate),
        channels: winner(cli.channels, environment.channels, file.channels, defaults.channels),
        mode: winner(cli.mode, environment.mode, file.mode, defaults.mode),
        jobs: winner(
            cli.jobs,
            environment.jobs,
            file.jobs,
            default_jobs(defaults.jobs, storage_profile.value),
        ),
        storage_profile,
        ffmpeg_path: optional_winner(cli.ffmpeg_path, environment.ffmpeg_path, file.ffmpeg_path),
        output_directory: optional_winner(
            cli.output_directory,
            environment.output_directory,
            file.output_directory,
        ),
        color: winner(cli.color, environment.color, file.color, defaults.color),
        log_file: optional_winner(cli.log_file, environment.log_file, file.log_file),
        custom_profiles: file.custom_profiles,
    }
}

/// Whether this is a use of color.
pub open spec fn is_color(value: Seq<char>) -> bool {
    value == "auto"@ || value == "always"@ || value == "never"@
}

/// Whether this is a kind of storage.
pub open spec fn is_storage_profile(value: Seq<char>) -> bool {
    value == "hdd"@ || value == "balanced"@ || value == "nvme"@
}

/// The failure for a number of files at once that there cannot be.
pub open spec fn jobs_fault() -> ConfigErrorView {
    invalid_value("jobs"@, "expected an integer from 1 through 64"@)
}

fn invalid_jobs() -> (r: ConfigError)
    ensures
        r@ == jobs_fault(),
{
    invalid("jobs", "expected an integer from 1 through 64".to_owned())
}

/// Why settings cannot be used: the first fault of profile, target, mode, color, the number of files
/// at once and the kind of storage.
pub open spec fn config_fault(config: EffectiveConfigView) -> Option<ConfigErrorView> {
    match policy_named(config.profile.value, config.custom_profiles) {
        Err(e) => Some(e),
        Ok(_) => match target_of(config.codec.value, config.bitrate.value, config.channels.value) {
            Err(e) => Some(e),
            Ok(_) => if mode_value(config.mode.value) is None {
                Some(mode_fault(config.mode.value))
            } else if !is_color(config.color.value) {
                Some(invalid_value("color"@, "expected auto, always, or never"@))
            } else if !(1 <= config.jobs.value <= MAX_CONCURRENCY) {
                Some(jobs_fault())
            } else if !is_storage_profile(config.storage_profile.value) {
                Some(invalid_value("storage-profile"@, "expected hdd, balanced, or nvme"@))
            } else {
                None
            },
        },
    }
}

fn merge_settings(
    defaults: DefaultConfig,
    file: PartialConfig,
    environment: PartialConfig,
    cli: PartialConfig,
) -> (r: EffectiveConfig)
    ensures
        r@ == merged(defaults@, file@, environment@, cli@),
{
    let storage_profile = pick(
        cli.storage_profile,
        environment.storage_profile,
        file.storage_profile,
        defaults.storage_profile,
    );
    let jobs: usize = pick_default_jobs(defaults.jobs, storage_profile.value().as_str());
    EffectiveConfig {
        profile: pick(cli.profile, environment.profile, file.profile, defaults.profile),
        codec: pick(cli.codec, environment.codec, file.codec, defaults.codec),
        bitrate: pick(cli.bitrate, environment.bitrate, file.bitrate, defaults.bitrate),
        channels: pick(cli.channels, environment.channels, file.channels, defaults.channels),
        mode: pick(cli.mode, environment.mode, file.mode, defaults.mode),
        jobs: pick(cli.jobs, environment.jobs, file.jobs, jobs),
        storage_profile,
        ffmpeg_path: pick_optional(cli.ffmpeg_path, environment.ffmpeg_path, file.ffmpeg_path),
        output_directory: pick_optional(
            cli.output_directory,
            environment.output_directory,
            file.output_directory,
        ),
        color: pick(cli.color, environment.color, file.color, defaults.color),
        log_file: pick_optional(cli.log_file, environment.log_file, file.log_file),
        custom_profiles: file.custom_profiles,
    }
}

fn check_settings(effective: &EffectiveConfig) -> (r: Result<(), ConfigError>)
    ensures
        match r {
            Ok(_) => config_fault(effective@) is None,
            Err(e) => config_fault(effective@) == Some(e@),
        },
{
    match effective.compatibility_policy() {
        Ok(_) => {},
        Err(e) => {
            return Err(e);
        },
    }
    match effective.audio_target() {
        Ok(_) => {},
        Err(e) => {
            return Err(e);
        },
    }
    match effective.output_mode() {
        Ok(_) => {},
        Err(e) => {
            return Err(e);
        },
    }
    let color = effective.color.value().as_str();
    if !text::same(color, "auto") && !text::same(color, "always") && !text::same(color, "never") {
        return Err(invalid("color", "expected auto, always, or never".to_owned()));
    }
    let jobs: usize = *effective.jobs.value();
    if jobs < 1 || jobs > MAX_CONCURRENCY {
        return Err(invalid_jobs());
    }
    let storage = effective.storage_profile.value().as_str();
    if !text::same(storage, "hdd") && !text::same(storage, "balanced") && !text::same(
        storage,
        "nvme",
    ) {
        return Err(invalid("storage-profile", "expected hdd, balanced, or nvme".to_owned()));
    }
    Ok(())
}

/// Takes each setting from the first place that has it: command line, environment, file, built-in.
pub fn merge_config(
    defaults: DefaultConfig,
    file: PartialConfig,
    environment: PartialConfig,
    cli: PartialConfig,
) -> (r: Result<EffectiveConfig, ConfigError>)
    ensures
        match r {
            Ok(c) => config_fault(merged(defaults@, file@, environment@, cli@)) is None && c@
                == merged(defaults@, file@, environment@, cli@),
            Err(e) => config_fault(merged(defaults@, file@, environment@, cli@)) == Some(e@),
        },
{
    let effective = merge_settings(defaults, file, environment, cli);
    match check_settings(&effective) {
        Ok(_) => Ok(effective),
        Err(e) => Err(e),
    }
}

/// The command line comes before the environment, the environment before the file, and the file
/// before what is built in; the source that is told is the place that decided.
pub proof fn law_precedence<V>(
    cli: Option<V>,
    environment: Option<V>,
    file: Option<V>,
    default: V,
)
    ensures
        cli matches Some(v) ==> winner(cli, environment, file, default) == (SourcedView {
            value: v,
            source: ConfigSource::Cli,
        }),
        cli is None && environment is Some ==> winner(cli, environment, file, default) == (
        SourcedView { value: environment->0, source: ConfigSource::Environment }),
        cli is None && environment is None && file is Some ==> winner(
            cli,
            environment,
            file,
            default,
        ) == (SourcedView { value: file->0, source: ConfigSource::File }),
        cli is None && environment is None && file is None ==> winner(
            cli,
            environment,
            file,
            default,
        ) == (SourcedView { value: default, source: ConfigSource::Default }),
{
}

/// Settings without fault have a policy, a target, a mode, a number of files at once that a batch
/// accepts and a kind of storage that is known.
pub proof fn law_merged_settings_are_usable(config: EffectiveConfigView)
    requires
        config_fault(config) is None,
    ensures
        policy_named(config.profile.value, config.custom_profiles) is Ok,
        target_of(config.codec.value, config.bitrate.value, config.channels.value) is Ok,
        mode_value(config.mode.value) is Some,
        1 <= config.jobs.value <= MAX_CONCURRENCY,
        is_storage_profile(config.storage_profile.value),
{
}

/// On storage that seeks slowly one file is worked on at a time unless some place says otherwise.
pub proof fn law_slow_storage_has_one_job(
    defaults: DefaultConfigView,
    file: PartialConfigView,
    environment: PartialConfigView,
    cli: PartialConfigView,
)
    requires
        merged(defaults, file, environment, cli).storage_profile.value == "hdd"@,
        cli.jobs is None,
        environment.jobs is None,
        file.jobs is None,
    ensures
        merged(defaults, file, environment, cli).jobs == (SourcedView {
            value: 1usize,
            source: ConfigSource::Default,
        }),
{
}

/// A configuration file.
#[derive(Debug, PartialEq, Eq)]
pub struct FileConfig {
    /// Its version.
    pub version: Option<u32>,
    /// Device profile.
    pub profile: Option<String>,
    /// Target codec.
    pub codec: Option<String>,
    /// Target bitrate.
    pub bitrate: Option<String>,
    /// Target layout.
    pub channels: Option<String>,
    /// Output mode.
    pub mode: Option<String>,
    /// The conversion tool or its directory.
    pub ffmpeg_path: Option<FilePath>,
    /// Directory of outputs.
    pub output_directory: Option<FilePath>,
    /// Profiles of the user.
    pub profiles: TextMap<ProfileFile>,
}

/// A configuration file.
pub struct FileConfigView {
    /// Its version.
    pub version: Option<u32>,
    /// Device profile.
    pub profile: Option<Seq<char>>,
    /// Target codec.
    pub codec: Option<Seq<char>>,
    /// Target bitrate.
    pub bitrate: Option<Seq<char>>,
    /// Target layout.
    pub channels: Option<Seq<char>>,
    /// Output mode.
    pub mode: Option<Seq<char>>,
    /// The conversion tool or its directory.
    pub ffmpeg_path: Option<Seq<u8>>,
    /// Directory of outputs.
    pub output_directory: Option<Seq<u8>>,
    /// Profiles of the user.
    pub profiles: Map<Seq<char>, ProfileFileView>,
}

impl View for FileConfig {
    type V = FileConfigView;

    open spec fn view(&self) -> FileConfigView {
        FileConfigView {
            version: self.version,
            profile: self.profile.deep_view(),
            codec: self.codec.deep_view(),
            bitrate: self.bitrate.deep_view(),
            channels: self.channels.deep_view(),
            mode: self.mode.deep_view(),
            ffmpeg_path: self.ffmpeg_path.deep_view(),
            output_directory: self.output_directory.deep_view(),
            profiles: self.profiles@,
        }
    }
}

impl DeepView for FileConfig {
    type V = FileConfigView;

    open spec fn deep_view(&self) -> FileConfigView {
        self@
    }
}

/// The most bytes of a configuration file.
pub const MAX_CONFIG_BYTES: u64 = 1_048_576;

/// What a new configuration file holds.
pub const STARTER_CONFIG: &'static str = "version = 1\nprofile = \"generic-tv\"\n\n[audio]\ncodec = \"ac3\"\nbitrate = \"640k\"\nchannels = \"keep-up-to-5.1\"\nmode = \"add\"\n";

/// Whether a configuration file is to be read, given what is at its path. It need not be there
/// unless it was asked for.
pub open spec fn readable(
    path: ConfigPathView,
    entry: Result<EntryFacts, IoErrorView>,
) -> Result<bool, ConfigErrorView> {
    match entry {
        Err(source) => if source.kind == IoErrorKind::NotFound && !path.required {
            Ok(false)
        } else {
            Err(ConfigErrorView::Read { path: path.path, source })
        },
        Ok(facts) => if facts.symlink || !facts.file {
            Err(ConfigErrorView::NotRegular { path: path.path })
        } else if facts.length > MAX_CONFIG_BYTES {
            Err(ConfigErrorView::TooLarge { path: path.path })
        } else {
            Ok(true)
        },
    }
}

/// What is told of an entry.
pub open spec fn entry_told(entry: Result<EntryFacts, IoError>) -> Result<EntryFacts, IoErrorView> {
    match entry {
        Ok(facts) => Ok(facts),
        Err(e) => Err(e@),
    }
}

/// Whether a configuration file is to be read, given what is at its path.
pub fn check_config_file(path: &ConfigPath, entry: Result<EntryFacts, IoError>) -> (r: Result<
    bool,
    ConfigError,
>)
    ensures
        match r {
            Ok(b) => readable(path@, entry_told(entry)) == Ok::<_, ConfigErrorView>(b),
            Err(e) => readable(path@, entry_told(entry)) == Err::<bool, _>(e@),
        },
{
    match entry {
        Err(source) => {
            let absent = match source.kind() {
                IoErrorKind::NotFound => true,
                _ => false,
            };
            if absent && !path.required {
                Ok(false)
            } else {
                Err(ConfigError::Read { path: path.path.clone(), source })
            }
        },
        Ok(facts) => if facts.symlink || !facts.file {
            Err(ConfigError::NotRegular { path: path.path.clone() })
        } else if facts.length > MAX_CONFIG_BYTES {
            Err(ConfigError::TooLarge { path: path.path.clone() })
        } else {
            Ok(true)
        },
    }
}

/// Why a profile of the user cannot have its name.
pub open spec fn name_fault(name: Seq<char>) -> Option<ConfigErrorView> {
    if text::trim(name).len() == 0 {
        Some(invalid_value("profile name"@, "profile name must not be empty"@))
    } else if builtin_profile(name) is Some {
        Some(ConfigErrorView::ProfileCollision { name })
    } else {
        None
    }
}

/// Why the profiles of the user cannot have their names: the first reason.
pub open spec fn names_fault(profiles: Seq<(Seq<char>, ProfileFileView)>) -> Option<ConfigErrorView>
    decreases profiles.len(),
{
    if profiles.len() == 0 {
        None
    } else if names_fault(profiles.drop_last()) is Some {
        names_fault(profiles.drop_last())
    } else {
        name_fault(profiles.last().0)
    }
}

/// Whether a list of layouts is empty or has a layout without a name.
pub open spec fn has_blank(layouts: Seq<Seq<char>>) -> bool {
    layouts.len() == 0 || exists|i: int|
        0 <= i < layouts.len() && text::trim(#[trigger] layouts[i]).len() == 0
}

/// Why a rule of the user is not valid.
pub open spec fn rule_fault(name: Seq<char>, rule: CodecRuleFileView) -> Option<ConfigErrorView> {
    if family_value(name) is None {
        Some(family_fault(name))
    } else if rule.maximum_channels == Some(0u16) {
        Some(invalid_value("maximum-channels"@, "must be greater than zero"@))
    } else if rule.allowed_layouts matches Some(layouts) && has_blank(layouts) {
        Some(invalid_value("allowed-layouts"@, "must contain non-empty layout names"@))
    } else {
        None
    }
}

/// Why the rules of the user are not valid: the first reason.
pub open spec fn rules_fault(rules: Seq<(Seq<char>, CodecRuleFileView)>) -> Option<ConfigErrorView>
    decreases rules.len(),
{
    if rules.len() == 0 {
        None
    } else if rules_fault(rules.drop_last()) is Some {
        rules_fault(rules.drop_last())
    } else {
        rule_fault(rules.last().0, rules.last().1)
    }
}

/// Why the profiles of the user are not valid: the first reason.
pub open spec fn profiles_fault(
    profiles: Seq<(Seq<char>, ProfileFileView)>,
) -> Option<ConfigErrorView>
    decreases profiles.len(),
{
    if profiles.len() == 0 {
        None
    } else if profiles_fault(profiles.drop_last()) is Some {
        profiles_fault(profiles.drop_last())
    } else {
        rules_fault(table::listing(profiles.last().1.codecs))
    }
}

/// Why a configuration file is not valid: the first fault of version, profile names and profiles.
pub open spec fn file_fault(file: FileConfigView) -> Option<ConfigErrorView> {
    let profiles = table::listing(file.profiles);
    if file.version is Some && file.version != Some(1u32) {
        Some(ConfigErrorView::UnsupportedVersion { version: file.version->0 })
    } else if names_fault(profiles) is Some {
        names_fault(profiles)
    } else {
        profiles_fault(profiles)
    }
}

/// The settings of a configuration file.
pub open spec fn file_settings(file: FileConfigView) -> PartialConfigView {
    PartialConfigView {
        profile: file.profile,
        codec: file.codec,
        bitrate: file.bitrate,
        channels: file.channels,
        mode: file.mode,
        jobs: None,
        storage_profile: None,
        ffmpeg_path: file.ffmpeg_path,
        output_directory: file.output_directory,
        color: None,
        log_file: None,
        custom_profiles: file.profiles,
    }
}

fn check_blank(layouts: &Vec<String>) -> (r: bool)
    ensures
        r == has_blank(layouts.deep_view()),
{
    let ghost all = layouts.deep_view();
    proof {
        assert(all.len() == layouts@.len());
    }
    if layouts.is_empty() {
        return true;
    }
    let mut i: usize = 0;
    while i < layouts.len()
        invariant
            all == layouts.deep_view(),
            i <= layouts@.len(),
            forall|j: int| 0 <= j < i ==> text::trim(#[trigger] all[j]).len() != 0,
        decreases layouts@.len() - i,
    {
        proof {
            assert(all[i as int] == layouts@[i as int]@);
        }
        if text::chars_of(text::trimmed(layouts[i].as_str()).as_str()).len() == 0 {
            return true;
        }
        i = i + 1;
    }
    false
}

fn check_rule(name: &str, rule: &CodecRuleFile) -> (r: Result<(), ConfigError>)
    ensures
        match r {
            Ok(_) => rule_fault(name@, rule@) is None,
            Err(e) => rule_fault(name@, rule@) == Some(e@),
        },
{
    match parse_family(name) {
        Ok(_) => {},
        Err(e) => {
            return Err(e);
        },
    }
    match rule.maximum_channels {
        Some(n) => {
            if n == 0 {
                return Err(invalid("maximum-channels", "must be greater than zero".to_owned()));
            }
        },
        None => {},
    }
    match &rule.allowed_layouts {
        Some(layouts) => {
            if check_blank(layouts) {
                return Err(
                    invalid("allowed-layouts", "must contain non-empty layout names".to_owned()),
                );
            }
        },
        None => {},
    }
    Ok(())
}

proof fn lemma_first_rule_fault(rules: Seq<(Seq<char>, CodecRuleFileView)>, n: int)
    requires
        0 <= n <= rules.len(),
        rules_fault(rules.take(n)) is Some,
    ensures
        rules_fault(rules) == rules_fault(rules.take(n)),
    decreases rules.len(),
{
    if n == rules.len() {
        assert(rules.take(n) =~= rules);
    } else {
        assert(rules.drop_last().take(n) =~= rules.take(n));
        lemma_first_rule_fault(rules.drop_last(), n);
    }
}

proof fn lemma_first_name_fault(profiles: Seq<(Seq<char>, ProfileFileView)>, n: int)
    requires
        0 <= n <= profiles.len(),
        names_fault(profiles.take(n)) is Some,
    ensures
        names_fault(profiles) == names_fault(profiles.take(n)),
    decreases profiles.len(),
{
    if n == profiles.len() {
        assert(profiles.take(n) =~= profiles);
    } else {
        assert(profiles.drop_last().take(n) =~= profiles.take(n));
        lemma_first_name_fault(profiles.drop_last(), n);
    }
}

proof fn lemma_first_profile_fault(profiles: Seq<(Seq<char>, ProfileFileView)>, n: int)
    requires
        0 <= n <= profiles.len(),
        profiles_fault(profiles.take(n)) is Some,
    ensures
        profiles_fault(profiles) == profiles_fault(profiles.take(n)),
    decreases profiles.len(),
{
    if n == profiles.len() {
        assert(profiles.take(n) =~= profiles);
    } else {
        assert(profiles.drop_last().take(n) =~= profiles.take(n));
        lemma_first_profile_fault(profiles.drop_last(), n);
    }
}

fn check_rules(rules: &TextMap<CodecRuleFile>) -> (r: Result<(), ConfigError>)
    ensures
        match r {
            Ok(_) => rules_fault(table::listing(rules@)) is None,
            Err(e) => rules_fault(table::listing(rules@)) == Some(e@),
        },
{
    rules.order();
    let ghost pairs = rules.pairs();
    let mut i: usize = 0;
    while i < rules.len()
        invariant
            pairs == rules.pairs(),
            pairs == table::listing(rules@),
            i <= pairs.len(),
            rules_fault(pairs.take(i as int)) is None,
        decreases pairs.len() - i,
    {
        proof {
            assert(pairs.take(i + 1).drop_last() =~= pairs.take(i as int));
            assert(pairs.take(i + 1).last() == pairs[i as int]);
        }
        match check_rule(rules.key_at(i), rules.value_at(i)) {
            Ok(_) => {},
            Err(e) => {
                proof {
                    lemma_first_rule_fault(pairs, i + 1);
                }
                return Err(e);
            },
        }
        i = i + 1;
    }
    proof {
        assert(pairs.take(i as int) =~= pairs);
    }
    Ok(())
}

fn check_names(profiles: &TextMap<ProfileFile>) -> (r: Result<(), ConfigError>)
    ensures
        match r {
            Ok(_) => names_fault(table::listing(profiles@)) is None,
            Err(e) => names_fault(table::listing(profiles@)) == Some(e@),
        },
{
    profiles.order();
    let ghost pairs = profiles.pairs();
    let mut i: usize = 0;
    while i < profiles.len()
        invariant
            pairs == profiles.pairs(),
            pairs == table::listing(profiles@),
            i <= pairs.len(),
            names_fault(pairs.take(i as int)) is None,
        decreases pairs.len() - i,
    {
        proof {
            assert(pairs.take(i + 1).drop_last() =~= pairs.take(i as int));
            assert(pairs.take(i + 1).last() == pairs[i as int]);
        }
        let name = profiles.key_at(i);
        if text::chars_of(text::trimmed(name).as_str()).len() == 0 {
            proof {
                lemma_first_name_fault(pairs, i + 1);
            }
            return Err(invalid("profile name", "profile name must not be empty".to_owned()));
        }
        match find_builtin(name) {
            Some(_) => {
                proof {
                    lemma_first_name_fault(pairs, i + 1);
                }
                return Err(ConfigError::ProfileCollision { name: name.to_owned() });
            },
            None => {},
        }
        i = i + 1;
    }
    proof {
        assert(pairs.take(i as int) =~= pairs);
    }
    Ok(())
}

fn validate_profiles(profiles: &TextMap<ProfileFile>) -> (r: Result<(), ConfigError>)
    ensures
        match r {
            Ok(_) => profiles_fault(table::listing(profiles@)) is None,
            Err(e) => profiles_fault(table::listing(profiles@)) == Some(e@),
        },
{
    profiles.order();
    let ghost pairs = profiles.pairs();
    let mut i: usize = 0;
    while i < profiles.len()
        invariant
            pairs == profiles.pairs(),
            pairs == table::listing(profiles@),
            i <= pairs.len(),
            profiles_fault(pairs.take(i as int)) is None,
        decreases pairs.len() - i,
    {
        proof {
            assert(pairs.take(i + 1).drop_last() =~= pairs.take(i as int));
            assert(pairs.take(i + 1).last() == pairs[i as int]);
        }
        match check_rules(&profiles.value_at(i).codecs) {
            Ok(_) => {},
            Err(e) => {
                proof {
                    lemma_first_profile_fault(pairs, i + 1);
                }
                return Err(e);
            },
        }
        i = i + 1;
    }
    proof {
        assert(pairs.take(i as int) =~= pairs);
    }
    Ok(())
}

/// The settings of a configuration file, or the first reason why it is not valid.
pub fn file_config(parsed: FileConfig) -> (r: Result<PartialConfig, ConfigError>)
    ensures
        match r {
            Ok(c) => file_fault(parsed@) is None && c@ == file_settings(parsed@),
            Err(e) => file_fault(parsed@) == Some(e@),
        },
{
    match parsed.version {
        Some(version) => {
            if version != 1 {
                return Err(ConfigError::UnsupportedVersion { version });
            }
        },
        None => {},
    }
    match check_names(&parsed.profiles) {
        Ok(_) => {},
        Err(e) => {
            return Err(e);
        },
    }
    match validate_profiles(&parsed.profiles) {
        Ok(_) => {},
        Err(e) => {
            return Err(e);
        },
    }
    Ok(
        PartialConfig {
            profile: parsed.profile,
            codec: parsed.codec,
            bitrate: parsed.bitrate,
            channels: parsed.channels,
            mode: parsed.mode,
            jobs: None,
            storage_profile: None,
            ffmpeg_path: parsed.ffmpeg_path,
            output_directory: parsed.output_directory,
            color: None,
            log_file: None,
            custom_profiles: parsed.profiles,
        },
    )
}

/// No profile of a valid configuration file hides a built-in one.
pub proof fn law_builtin_profiles_are_never_hidden(
    file: FileConfigView,
    i: int,
)
    requires
        file_fault(file) is None,
        0 <= i < table::listing(file.profiles).len(),
    ensures
        builtin_profile(table::listing(file.profiles)[i].0) is None,
{
    lemma_names_sound(table::listing(file.profiles), i);
}

proof fn lemma_names_sound(profiles: Seq<(Seq<char>, ProfileFileView)>, i: int)
    requires
        names_fault(profiles) is None,
        0 <= i < profiles.len(),
    ensures
        name_fault(profiles[i].0) is None,
    decreases profiles.len(),
{
    if i < profiles.len() - 1 {
        lemma_names_sound(profiles.drop_last(), i);
    }
}

/// Where the configuration file is: where the command line says, else where the environment says,
/// else in the directory of the platform.
pub fn select_config_path(
    cli: Option<FilePath>,
    environment: Option<FilePath>,
    platform: Option<FilePath>,
) -> (r: Result<ConfigPath, ConfigError>)
    ensures
        match r {
            Ok(p) => match (cli, environment, platform) {
                (Some(path), _, _) => p@ == (ConfigPathView { path: path@, required: true }),
                (None, Some(path), _) => p@ == (ConfigPathView { path: path@, required: true }),
                (None, None, Some(directory)) => p@ == (ConfigPathView {
                    path: path::join(directory@, encode_utf8("config.toml"@)),
                    required: false,
                }),
                (None, None, None) => false,
            },
            Err(e) => cli is None && environment is None && platform is None && e@
                is NoPlatformDirectory,
        },
{
    match cli {
        Some(path) => {
            return Ok(ConfigPath { path, required: true });
        },
        None => {},
    }
    match environment {
        Some(path) => {
            return Ok(ConfigPath { path, required: true });
        },
        None => {},
    }
    match platform {
        Some(directory) => Ok(
            ConfigPath {
                path: directory.join(&FilePath::from_text("config.toml")),
                required: false,
            },
        ),
        None => Err(ConfigError::NoPlatformDirectory),
    }
}

/// What a variable of the environment holds.
#[derive(Debug, PartialEq, Eq)]
pub enum EnvironmentText {
    /// It is not set.
    Absent,
    /// A text.
    Text(String),
    /// No text.
    NotUnicode,
}

/// What a variable of the environment holds.
pub enum EnvironmentTextView {
    /// It is not set.
    Absent,
    /// A text.
    Text(Seq<char>),
    /// No text.
    NotUnicode,
}

impl View for EnvironmentText {
    type V = EnvironmentTextView;

    open spec fn view(&self) -> EnvironmentTextView {
        match self {
            EnvironmentText::Absent => EnvironmentTextView::Absent,
            EnvironmentText::Text(value) => EnvironmentTextView::Text(value@),
            EnvironmentText::NotUnicode => EnvironmentTextView::NotUnicode,
        }
    }
}

impl DeepView for EnvironmentText {
    type V = EnvironmentTextView;

    open spec fn deep_view(&self) -> EnvironmentTextView {
        self@
    }
}

/// The variables of the environment that hold settings.
#[derive(Debug, PartialEq, Eq)]
pub struct EnvironmentValues {
    /// Device profile.
    pub profile: EnvironmentText,
    /// Target codec.
    pub codec: EnvironmentText,
    /// Target bitrate.
    pub bitrate: EnvironmentText,
    /// Target layout.
    pub channels: EnvironmentText,
    /// Output mode.
    pub mode: EnvironmentText,
    /// How many files are worked on at once.
    pub jobs: EnvironmentText,
    /// The kind of storage.
    pub storage_profile: EnvironmentText,
    /// The conversion tool or its directory.
    pub ffmpeg_path: Option<FilePath>,
    /// Directory of outputs.
    pub output_directory: Option<FilePath>,
    /// Use of color.
    pub color: EnvironmentText,
    /// Log file.
    pub log_file: Option<FilePath>,
}

/// The variables of the environment that hold settings.
pub struct EnvironmentValuesView {
    /// Device profile.
    pub profile: EnvironmentTextView,
    /// Target codec.
    pub codec: EnvironmentTextView,
    /// Target bitrate.
    pub bitrate: EnvironmentTextView,
    /// Target layout.
    pub channels: EnvironmentTextView,
    /// Output mode.
    pub mode: EnvironmentTextView,
    /// How many files are worked on at once.
    pub jobs: EnvironmentTextView,
    /// The kind of storage.
    pub storage_profile: EnvironmentTextView,
    /// The conversion tool or its directory.
    pub ffmpeg_path: Option<Seq<u8>>,
    /// Directory of outputs.
    pub output_directory: Option<Seq<u8>>,
    /// Use of color.
    pub color: EnvironmentTextView,
    /// Log file.
    pub log_file: Option<Seq<u8>>,
}

impl View for EnvironmentValues {
    type V = EnvironmentValuesView;

    open spec fn view(&self) -> EnvironmentValuesView {
        EnvironmentValuesView {
            profile: self.profile@,
            codec: self.codec@,
            bitrate: self.bitrate@,
            channels: self.channels@,
            mode: self.mode@,
            jobs: self.jobs@,
            storage_profile: self.storage_profile@,
            ffmpeg_path: self.ffmpeg_path.deep_view(),
            output_directory: self.output_directory.deep_view(),
            color: self.color@,
            log_file: self.log_file.deep_view(),
        }
    }
}

impl DeepView for EnvironmentValues {
    type V = EnvironmentValuesView;

    open spec fn deep_view(&self) -> EnvironmentValuesView {
        self@
    }
}

impl EnvironmentTextView {
    /// The setting, where there is one.
    pub open spec fn setting(self) -> Option<Seq<char>> {
        match self {
            EnvironmentTextView::Text(t) => Some(t),
            _ => None,
        }
    }

    /// The number, where there is one.
    pub open spec fn count(self) -> Option<int> {
        match self {
            EnvironmentTextView::Text(t) => number::read_unsigned(t, usize::MAX as int),
            _ => None,
        }
    }
}

fn env_text(name: &'static str, value: EnvironmentText) -> (r: Result<Option<String>, ConfigError>)
    ensures
        match r {
            Ok(s) => !(value@ is NotUnicode) && s.deep_view() == value@.setting(),
            Err(e) => value@ is NotUnicode && e@ == (ConfigErrorView::InvalidEnvironment {
                name: name@,
            }),
        },
{
    match value {
        EnvironmentText::Text(t) => Ok(Some(t)),
        EnvironmentText::Absent => Ok(None),
        EnvironmentText::NotUnicode => Err(ConfigError::InvalidEnvironment { name }),
    }
}

fn env_jobs(value: EnvironmentText) -> (r: Result<Option<usize>, ConfigError>)
    ensures
        match r {
            Ok(n) => !(value@ is NotUnicode) && (value@ is Text ==> value@.count() is Some)
                && number::opt_usize(n) == value@.count(),
            Err(e) => if value@ is NotUnicode {
                e@ == (ConfigErrorView::InvalidEnvironment { name: "SONICMUX_JOBS"@ })
            } else {
                value@ is Text && value@.count() is None && e@ == jobs_fault()
            },
        },
{
    match value {
        EnvironmentText::Text(t) => match number::parse_usize_text(t.as_str()) {
            Some(n) => Ok(Some(n)),
            None => Err(invalid_jobs()),
        },
        EnvironmentText::Absent => Ok(None),
        EnvironmentText::NotUnicode => Err(
            ConfigError::InvalidEnvironment { name: "SONICMUX_JOBS" },
        ),
    }
}

/// The failure for a variable of the environment that should hold a text and does not.
pub open spec fn no_text(name: Seq<char>) -> Option<ConfigErrorView> {
    Some(ConfigErrorView::InvalidEnvironment { name })
}

/// Why the environment cannot be used: the first variable that should hold a text and does not, or
/// that should hold a number and does not.
pub open spec fn environment_fault(values: EnvironmentValuesView) -> Option<ConfigErrorView> {
    if values.profile is NotUnicode {
        no_text("SONICMUX_PROFILE"@)
    } else if values.codec is NotUnicode {
        no_text("SONICMUX_CODEC"@)
    } else if values.bitrate is NotUnicode {
        no_text("SONICMUX_BITRATE"@)
    } else if values.channels is NotUnicode {
        no_text("SONICMUX_CHANNELS"@)
    } else if values.mode is NotUnicode {
        no_text("SONICMUX_MODE"@)
    } else if values.jobs is NotUnicode {
        no_text("SONICMUX_JOBS"@)
    } else if values.jobs is Text && values.jobs.count() is None {
        Some(jobs_fault())
    } else if values.storage_profile is NotUnicode {
        no_text("SONICMUX_STORAGE_PROFILE"@)
    } else if values.color is NotUnicode {
        no_text("SONICMUX_COLOR"@)
    } else {
        None
    }
}

/// The settings of the environment.
pub open spec fn environment_settings(values: EnvironmentValuesView) -> PartialConfigView {
    PartialConfigView {
        profile: values.profile.setting(),
        codec: values.codec.setting(),
        bitrate: values.bitrate.setting(),
        channels: values.channels.setting(),
        mode: values.mode.setting(),
        jobs: match values.jobs.count() {
            Some(n) => Some(n as usize),
            None => None,
        },
        storage_profile: values.storage_profile.setting(),
        ffmpeg_path: values.ffmpeg_path,
        output_directory: values.output_directory,
        color: values.color.setting(),
        log_file: values.log_file,
        custom_profiles: Map::empty(),
    }
}

/// The settings of the environment.
pub fn environment_config(values: EnvironmentValues) -> (r: Result<PartialConfig, ConfigError>)
    ensures
        match r {
            Ok(c) => environment_fault(values@) is None && c@ == environment_settings(values@),
            Err(e) => environment_fault(values@) == Some(e@),
        },
{
    let profile = match env_text("SONICMUX_PROFILE", values.profile) {
        Ok(v) => v,
        Err(e) => {
            return Err(e);
        },
    };
    let codec = match env_text("SONICMUX_CODEC", values.codec) {
        Ok(v) => v,
        Err(e) => {
            return Err(e);
        },
    };
    let bitrate = match env_text("SONICMUX_BITRATE", values.bitrate) {
        Ok(v) => v,
        Err(e) => {
            return Err(e);
        },
    };
    let channels = match env_text("SONICMUX_CHANNELS", values.channels) {
        Ok(v) => v,
        Err(e) => {
            return Err(e);
        },
    };
    let mode = match env_text("SONICMUX_MODE", values.mode) {
        Ok(v) => v,
        Err(e) => {
            return Err(e);
        },
    };
    let jobs = match env_jobs(values.jobs) {
        Ok(v) => v,
        Err(e) => {
            return Err(e);
        },
    };
    let storage_profile = match env_text("SONICMUX_STORAGE_PROFILE", values.storage_profile) {
        Ok(v) => v,
        Err(e) => {
            return Err(e);
        },
    };
    let color = match env_text("SONICMUX_COLOR", values.color) {
        Ok(v) => v,
        Err(e) => {
            return Err(e);
        },
    };
    Ok(
        PartialConfig {
            profile,
            codec,
            bitrate,
            channels,
            mode,
            jobs,
            storage_profile,
            ffmpeg_path: values.ffmpeg_path,
            output_directory: values.output_directory,
            color,
            log_file: values.log_file,
            custom_profiles: TextMap::new(),
        },
    )
}

/// The settings that hold, given what the configuration file comes to, the environment and the
/// command line: the fault of the file comes first, that of the environment next.
pub fn load_effective_config(
    file: Result<PartialConfig, ConfigError>,
    environment: EnvironmentValues,
    cli: PartialConfig,
) -> (r: Result<EffectiveConfig, ConfigError>)
    ensures
        match (file, environment_fault(environment@), r) {
            (Err(fault), _, Err(e)) => e == fault,
            (Ok(_), Some(fault), Err(e)) => e@ == fault,
            (Ok(settings), None, Ok(c)) => {
                let all = merged(
                    built_in(),
                    settings@,
                    environment_settings(environment@),
                    cli@,
                );
                config_fault(all) is None && c@ == all
            },
            (Ok(settings), None, Err(e)) => config_fault(
                merged(built_in(), settings@, environment_settings(environment@), cli@),
            ) == Some(e@),
            _ => false,
        },
{
    let settings = match file {
        Ok(settings) => settings,
        Err(fault) => {
            return Err(fault);
        },
    };
    let variables = match environment_config(environment) {
        Ok(variables) => variables,
        Err(e) => {
            return Err(e);
        },
    };
    merge_config(DefaultConfig::default(), settings, variables, cli)
}

proof fn lemma_rules_are_known(start: PolicyView, rules: Seq<(Seq<char>, CodecRuleFileView)>)
    ensures
        with_rules(start, rules) matches Err(e) ==> !(e is UnknownProfile),
    decreases rules.len(),
{
    if rules.len() > 0 {
        lemma_rules_are_known(start, rules.drop_last());
    }
}

/// A profile is unknown exactly where it is not among the names that are listed.
pub proof fn law_listed_profiles_are_known(
    name: Seq<char>,
    custom: Map<Seq<char>, ProfileFileView>,
)
    requires
        table::is_listed(custom),
    ensures
        (builtin_names() + keys_of(table::listing(custom))).contains(name) <==> policy_named(
            name,
            custom,
        ) != Err::<PolicyView, _>(ConfigErrorView::UnknownProfile { name }),
{
    let pairs = table::listing(custom);
    let names = builtin_names() + keys_of(pairs);
    if custom.dom().contains(name) {
        let i = table::key_index(pairs, name);
        assert(table::has_key(pairs, name));
        assert(names[4 + i] == name);
        if let Some(p) = builtin_profile(name) {
            lemma_rules_are_known(
                PolicyView {
                    unknown_codec: behavior_of(custom[name].unknown_codec),
                    ..base_policy(p)
                },
                table::listing(custom[name].codecs),
            );
        } else {
            lemma_rules_are_known(
                PolicyView {
                    unknown_codec: behavior_of(custom[name].unknown_codec),
                    ..base_policy(ProfileNameView::Custom(name))
                },
                table::listing(custom[name].codecs),
            );
        }
    }
    if builtin_profile(name) is Some {
        assert(names[0] == "generic-tv"@);
        assert(names[1] == "samsung"@);
        assert(names[2] == "lg"@);
        assert(names[3] == "dlna"@);
        assert(names.contains(name));
    }
    if names.contains(name) {
        let i = choose|i: int| 0 <= i < names.len() && names[i] == name;
        if i < 4 {
            assert(names[i] == builtin_names()[i]);
            assert(i == 0 || i == 1 || i == 2 || i == 3);
        } else {
            assert(pairs[i - 4].0 == name);
            assert(table::has_key(pairs, name));
        }
    }
}

} // verus!
