//! Choices that are made on the command line.
use vstd::prelude::*;

use crate::model::StreamIndex;
use crate::number;
use crate::path::FilePath;
use crate::runtime::config;
use crate::runtime::config::{PartialConfig, PartialConfigView};
use crate::runtime::discovery::{DiscoveryRequest, DiscoveryRequestView};
use crate::runtime::prepare::{AudioSelectionRequest, SelectionRequestView};
use crate::session;
use crate::text;

verus! {

/// When output is coloured.
#[derive(Debug, Clone, Copy, PartialEq, Eq, Structural)]
pub enum ColorChoice {
    /// Where the terminal supports it.
    Auto,
    /// Always.
    Always,
    /// Never.
    Never,
}

impl DeepView for ColorChoice {
    type V = ColorChoice;

    open spec fn deep_view(&self) -> ColorChoice {
        *self
    }
}

impl ColorChoice {
    /// The spelling in settings.
    pub open spec fn label(self) -> Seq<char> {
        match self {
            ColorChoice::Auto => "auto"@,
            ColorChoice::Always => "always"@,
            ColorChoice::Never => "never"@,
        }
    }

    /// The spelling in settings.
    pub fn as_str(self) -> (r: &'static str)
        ensures
            r@ == self.label(),
    {
        match self {
            ColorChoice::Auto => "auto",
            ColorChoice::Always => "always",
            ColorChoice::Never => "never",
        }
    }
}

/// What kind of storage the files are on.
#[derive(Debug, Clone, Copy, PartialEq, Eq, Structural)]
pub enum StorageProfileChoice {
    /// Storage that seeks slowly.
    Hdd,
    /// Storage of no particular kind.
    Balanced,
    /// Solid-state storage.
    Nvme,
}

impl DeepView for StorageProfileChoice {
    type V = StorageProfileChoice;

    open spec fn deep_view(&self) -> StorageProfileChoice {
        *self
    }
}

impl StorageProfileChoice {
    /// The spelling in settings.
    pub open spec fn label(self) -> Seq<char> {
        match self {
            StorageProfileChoice::Hdd => "hdd"@,
            StorageProfileChoice::Balanced => "balanced"@,
            StorageProfileChoice::Nvme => "nvme"@,
        }
    }

    /// The spelling in settings.
    pub fn as_str(self) -> (r: &'static str)
        ensures
            r@ == self.label(),
    {
        match self {
            StorageProfileChoice::Hdd => "hdd",
            StorageProfileChoice::Balanced => "balanced",
            StorageProfileChoice::Nvme => "nvme",
        }
    }
}

/// Reads how many files are worked on at once.
pub fn parse_jobs(value: &str) -> (r: Result<usize, String>)
    ensures
        match (r, number::read_unsigned(value@, usize::MAX as int)) {
            (Ok(n), Some(jobs)) => n == jobs && 1 <= jobs <= 64,
            (Ok(_), None) => false,
            (Err(message), read) => message@ == "expected an integer from 1 through 64"@ && !(
            read matches Some(jobs) && 1 <= jobs <= 64),
        },
{
    match number::parse_usize_text(value) {
        Some(jobs) => {
            if 1 <= jobs && jobs <= 64 {
                return Ok(jobs);
            }
        },
        None => {},
    }
    Err("expected an integer from 1 through 64".to_owned())
}

/// Settings of a conversion that the command line overrides.
#[derive(Debug, PartialEq, Eq)]
pub struct AudioArgs {
    /// Device profile.
    pub profile: Option<String>,
    /// Target codec.
    pub codec: Option<String>,
    /// Target bitrate.
    pub bitrate: Option<String>,
    /// Target layout.
    pub channels: Option<String>,
    /// Output mode.
    pub mode: Option<String>,
}

impl Default for AudioArgs {
    fn default() -> (r: Self)
        ensures
            r.overriding() == config::no_settings(),
    {
        AudioArgs { profile: None, codec: None, bitrate: None, channels: None, mode: None }
    }
}

impl AudioArgs {
    /// The settings that these arguments make: those that are given, and no others.
    pub open spec fn overriding(self) -> PartialConfigView {
        PartialConfigView {
            profile: self.profile.deep_view(),
            codec: self.codec.deep_view(),
            bitrate: self.bitrate.deep_view(),
            channels: self.channels.deep_view(),
            mode: self.mode.deep_view(),
            ..config::no_settings()
        }
    }

    /// The settings that these arguments make.
    pub fn overrides(&self) -> (r: PartialConfig)
        ensures
            r@ == self.overriding(),
    {
        let mut settings = PartialConfig::default();
        settings.profile = text::copy_text(&self.profile);
        settings.codec = text::copy_text(&self.codec);
        settings.bitrate = text::copy_text(&self.bitrate);
        settings.channels = text::copy_text(&self.channels);
        settings.mode = text::copy_text(&self.mode);
        settings
    }
}

/// How the command line says inputs are looked for.
#[derive(Debug, PartialEq, Eq)]
pub struct DiscoveryArgs {
    /// Whether directories below directories count.
    pub recursive: bool,
    /// Patterns of which an input must match one.
    pub includes: Vec<String>,
    /// Patterns of which an input may match none.
    pub excludes: Vec<String>,
    /// Whether symbolic links are followed.
    pub follow_links: bool,
}

impl DiscoveryArgs {
    /// Where inputs are looked for.
    pub fn request(&self, roots: Vec<FilePath>) -> (r: DiscoveryRequest)
        ensures
            r@ == (DiscoveryRequestView {
                roots: roots.deep_view(),
                recursive: self.recursive,
                follow_links: self.follow_links,
                includes: self.includes.deep_view(),
                excludes: self.excludes.deep_view(),
            }),
    {
        DiscoveryRequest {
            roots,
            recursive: self.recursive,
            follow_links: self.follow_links,
            includes: text::copy_texts(&self.includes),
            excludes: text::copy_texts(&self.excludes),
        }
    }
}

/// The audio that a remux makes the default: a number is an index, the word for the first
/// compatible stream is that, and anything else is a language.
pub open spec fn selection_of(choice: Seq<char>) -> SelectionRequestView {
    if choice == "first-compatible"@ {
        SelectionRequestView::FirstCompatible
    } else {
        match number::read_unsigned(choice, u32::MAX as int) {
            Some(index) => SelectionRequestView::StreamIndex(index as u32),
            None => SelectionRequestView::Language(choice),
        }
    }
}

/// Reads which audio a remux makes the default.
pub fn parse_selection(choice: &str) -> (r: AudioSelectionRequest)
    ensures
        r@ == selection_of(choice@),
{
    if text::same(choice, "first-compatible") {
        return AudioSelectionRequest::FirstCompatible;
    }
    match number::parse_u32_text(choice) {
        Some(index) => AudioSelectionRequest::StreamIndex(StreamIndex::new(index)),
        None => AudioSelectionRequest::Language(choice.to_owned()),
    }
}

/// The outputs of a conversion, one for every input, or nothing where an exact output is asked for
/// and there is not exactly one input.
pub open spec fn outputs_for(
    inputs: Seq<Seq<u8>>,
    exact: Option<Seq<u8>>,
    directory: Option<Seq<u8>>,
) -> Option<Seq<Seq<u8>>> {
    match exact {
        Some(output) => if inputs.len() == 1 {
            Some(seq![output])
        } else {
            None
        },
        None => Some(
            Seq::new(inputs.len(), |i: int| session::output_for(inputs[i], directory)),
        ),
    }
}

/// Chooses the outputs of a conversion.
pub fn assign_outputs(
    inputs: &Vec<FilePath>,
    exact: &Option<FilePath>,
    directory: &Option<FilePath>,
) -> (r: Result<Vec<FilePath>, String>)
    ensures
        match r {
            Ok(outputs) => outputs_for(
                inputs.deep_view(),
                exact.deep_view(),
                directory.deep_view(),
            ) == Some(outputs.deep_view()),
            Err(message) => outputs_for(
                inputs.deep_view(),
                exact.deep_view(),
                directory.deep_view(),
            ) is None && message@ == "an exact output path needs exactly one input"@,
        },
{
    let mut outputs: Vec<FilePath> = Vec::new();
    if let Some(output) = exact {
        if inputs.len() != 1 {
            return Err("an exact output path needs exactly one input".to_owned());
        }
        outputs.push(output.clone());
        proof {
            assert(outputs.deep_view() =~= seq![output@]);
        }
        return Ok(outputs);
    }
    let mut i: usize = 0;
    while i < inputs.len()
        invariant
            i <= inputs@.len(),
            outputs@.len() == i,
            forall|k: int|
                0 <= k < i ==> (#[trigger] outputs@[k])@ == session::output_for(
                    inputs@[k]@,
                    directory.deep_view(),
                ),
        decreases inputs@.len() - i,
    {
        outputs.push(session::default_output(&inputs[i], directory));
        i = i + 1;
    }
    proof {
        let all = inputs.deep_view();
        assert(outputs.deep_view() =~= Seq::new(
            all.len(),
            |k: int| session::output_for(all[k], directory.deep_view()),
        ));
    }
    Ok(outputs)
}

} // verus!
