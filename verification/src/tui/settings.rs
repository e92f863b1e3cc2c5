//! The settings of a session in the terminal, and how keys change them.
use vstd::arithmetic::div_mod::*;
use vstd::prelude::*;

use crate::cli::args::StorageProfileChoice;
use crate::number;
use crate::path;
use crate::path::FilePath;
use crate::plan::OutputMode;
use crate::policy::{CompatibilityPolicy, PolicyView};
use crate::runtime::config::{
    ConfigError, ConfigErrorView, EffectiveConfig, EffectiveConfigView,
};
use crate::runtime::prepare::FailurePolicy;
use crate::session;
use crate::session::{PlanSettings, PlanSettingsView, ProfileChoice, ProfileChoiceView};
use crate::target::{AudioTarget, TargetView};
use crate::text;

verus! {

/// The settings of a session in the terminal.
#[derive(Debug)]
pub struct UiSettings {
    /// The profiles that can be chosen.
    pub profiles: Vec<ProfileChoice>,
    /// The place of the one that is chosen.
    pub profile: usize,
    /// Whether nothing is encoded.
    pub action_remux: bool,
    /// Target codec.
    pub codec: String,
    /// Target bitrate.
    pub bitrate: String,
    /// Target layout.
    pub channels: String,
    /// Output mode.
    pub mode: String,
    /// How many files are worked on at once.
    pub jobs: usize,
    /// The kind of storage.
    pub storage_profile: String,
    /// What a failure means for the other files.
    pub failure_policy: FailurePolicy,
    /// Whether nothing is converted.
    pub dry_run: bool,
    /// The directory of outputs.
    pub output_directory: Option<FilePath>,
    /// The setting that is selected.
    pub selected_field: usize,
}

/// The settings of a session in the terminal.
pub struct UiSettingsView {
    /// The profiles that can be chosen.
    pub profiles: Seq<ProfileChoiceView>,
    /// The place of the one that is chosen.
    pub profile: usize,
    /// Whether nothing is encoded.
    pub action_remux: bool,
    /// Target codec.
    pub codec: Seq<char>,
    /// Target bitrate.
    pub bitrate: Seq<char>,
    /// Target layout.
    pub channels: Seq<char>,
    /// Output mode.
    pub mode: Seq<char>,
    /// How many files are worked on at once.
    pub jobs: usize,
    /// The kind of storage.
    pub storage_profile: Seq<char>,
    /// What a failure means for the other files.
    pub failure_policy: FailurePolicy,
    /// Whether nothing is converted.
    pub dry_run: bool,
    /// The directory of outputs.
    pub output_directory: Option<Seq<u8>>,
    /// The setting that is selected.
    pub selected_field: usize,
}

impl View for UiSettings {
    type V = UiSettingsView;

    open spec fn view(&self) -> UiSettingsView {
        UiSettingsView {
            profiles: self.profiles.deep_view(),
            profile: self.profile,
            action_remux: self.action_remux,
            codec: self.codec@,
            bitrate: self.bitrate@,
            channels: self.channels@,
            mode: self.mode@,
            jobs: self.jobs,
            storage_profile: self.storage_profile@,
            failure_policy: self.failure_policy,
            dry_run: self.dry_run,
            output_directory: self.output_directory.deep_view(),
            selected_field: self.selected_field,
        }
    }
}

impl DeepView for UiSettings {
    type V = UiSettingsView;

    open spec fn deep_view(&self) -> UiSettingsView {
        self@
    }
}

impl Clone for UiSettings {
    fn clone(&self) -> (r: Self)
        ensures
            r@ == self@,
    {
        let r = UiSettings {
            profiles: self.profiles.clone(),
            profile: self.profile,
            action_remux: self.action_remux,
            codec: self.codec.clone(),
            bitrate: self.bitrate.clone(),
            channels: self.channels.clone(),
            mode: self.mode.clone(),
            jobs: self.jobs,
            storage_profile: self.storage_profile.clone(),
            failure_policy: self.failure_policy,
            dry_run: self.dry_run,
            output_directory: path::copy_path(&self.output_directory),
            selected_field: self.selected_field,
        };
        proof {
            assert(r.profiles.deep_view() =~= self.profiles.deep_view());
        }
        r
    }
}

/// How many settings there are.
pub const FIELD_COUNT: usize = 10;

/// The place behind a place in a ring, or before it.
pub open spec fn cycled(current: int, length: int, back: bool) -> int {
    if length == 0 {
        0
    } else if back {
        if current == 0 {
            length - 1
        } else {
            current - 1
        }
    } else {
        (current + 1) % length
    }
}

/// The place behind a place in a ring, or before it where the direction is negative.
pub fn cycle_index(current: usize, length: usize, direction: i32) -> (r: usize)
    requires
        current < usize::MAX,
    ensures
        r == cycled(current as int, length as int, direction < 0),
{
    if length == 0 {
        return 0;
    }
    if direction < 0 {
        if current == 0 {
            length - 1
        } else {
            current - 1
        }
    } else {
        (current + 1) % length
    }
}

/// Going on and back again, or back and on again, gives back a place of the ring.
pub proof fn law_cycling_can_be_undone(current: int, length: int, back: bool)
    requires
        0 <= current < length,
    ensures
        0 <= cycled(current, length, back) < length,
        cycled(cycled(current, length, back), length, !back) == current,
{
    lemma_small_mod(current as nat, length as nat);
    lemma_mod_self_0(length);
    if current + 1 < length {
        lemma_small_mod((current + 1) as nat, length as nat);
    }
}

/// The place of a value among three, or the first place.
pub open spec fn place_among(values: Seq<Seq<char>>, current: Seq<char>) -> int {
    if values[0] == current {
        0
    } else if values[1] == current {
        1
    } else if values[2] == current {
        2
    } else {
        0
    }
}

/// The value behind a value of three, or before it.
pub open spec fn cycled_value(current: Seq<char>, values: Seq<Seq<char>>, back: bool) -> Seq<char> {
    values[cycled(place_among(values, current), 3, back)]
}

/// The codecs that can be chosen.
pub open spec fn codecs() -> Seq<Seq<char>> {
    seq!["ac3"@, "eac3"@, "aac"@]
}

/// The layouts that can be chosen.
pub open spec fn layouts() -> Seq<Seq<char>> {
    seq!["keep-up-to-5.1"@, "stereo"@, "5.1"@]
}

/// The output modes that can be chosen.
pub open spec fn modes() -> Seq<Seq<char>> {
    seq!["add"@, "replace"@, "only-new"@]
}

/// The kinds of storage that can be chosen.
pub open spec fn storage_kinds() -> Seq<Seq<char>> {
    seq!["hdd"@, "balanced"@, "nvme"@]
}

/// The bitrates that can be chosen for a codec.
pub open spec fn bitrates(codec: Seq<char>) -> Seq<Seq<char>> {
    if codec == "ac3"@ {
        seq!["384k"@, "448k"@, "640k"@]
    } else if codec == "eac3"@ {
        seq!["384k"@, "640k"@, "1024k"@]
    } else {
        seq!["192k"@, "256k"@, "384k"@]
    }
}

/// The bitrate of a codec that was just chosen.
pub open spec fn usual_bitrate(codec: Seq<char>) -> Seq<char> {
    if codec == "ac3"@ || codec == "eac3"@ {
        "640k"@
    } else {
        "384k"@
    }
}

/// The bitrate of a codec that was just chosen.
pub fn default_bitrate(codec: &str) -> (r: &'static str)
    ensures
        r@ == usual_bitrate(codec@),
{
    if text::same(codec, "ac3") || text::same(codec, "eac3") {
        "640k"
    } else {
        "384k"
    }
}

fn cycle_value(
    current: &str,
    first: &'static str,
    second: &'static str,
    third: &'static str,
    direction: i32,
) -> (r: String)
    ensures
        r@ == cycled_value(current@, seq![first@, second@, third@], direction < 0),
{
    let place: usize = if text::same(first, current) {
        0
    } else if text::same(second, current) {
        1
    } else if text::same(third, current) {
        2
    } else {
        0
    };
    let next: usize = cycle_index(place, 3, direction);
    if next == 0 {
        first.to_owned()
    } else if next == 1 {
        second.to_owned()
    } else {
        third.to_owned()
    }
}

fn cycle_bitrate(current: &str, codec: &str, direction: i32) -> (r: String)
    ensures
        r@ == cycled_value(current@, bitrates(codec@), direction < 0),
{
    if text::same(codec, "ac3") {
        cycle_value(current, "384k", "448k", "640k", direction)
    } else if text::same(codec, "eac3") {
        cycle_value(current, "384k", "640k", "1024k", direction)
    } else {
        cycle_value(current, "192k", "256k", "384k", direction)
    }
}

/// The place behind or before a place, without going round.
pub open spec fn moved(current: int, length: int, back: bool) -> int {
    if length == 0 {
        0
    } else if back {
        if current == 0 {
            0
        } else {
            current - 1
        }
    } else if current + 1 > length - 1 {
        length - 1
    } else {
        current + 1
    }
}

/// The place behind a place, or before it where the difference is negative, without going round.
pub fn move_bounded(current: usize, length: usize, delta: i32) -> (r: usize)
    ensures
        r == moved(current as int, length as int, delta < 0),
{
    if length == 0 {
        return 0;
    }
    if delta < 0 {
        if current == 0 {
            0
        } else {
            current - 1
        }
    } else if current >= length - 1 {
        length - 1
    } else {
        current + 1
    }
}

impl UiSettingsView {
    /// Whether a profile is chosen that is there, where there are any.
    pub open spec fn well_formed(self) -> bool {
        self.profile < self.profiles.len() || self.profile == 0
    }

    /// The name of the profile that is chosen.
    pub open spec fn profile_name(self) -> Seq<char> {
        if self.profile < self.profiles.len() {
            self.profiles[self.profile as int].name
        } else {
            "generic-tv"@
        }
    }

    /// The rules of the profile that is chosen.
    pub open spec fn policy(self) -> PolicyView {
        if self.profile < self.profiles.len() {
            self.profiles[self.profile as int].policy
        } else {
            session::generic_policy()
        }
    }

    /// The target.
    pub open spec fn target(self) -> Result<TargetView, Seq<char>> {
        session::target_of(self.codec, self.bitrate, self.channels)
    }

    /// What plans depend on.
    pub open spec fn planning(self) -> PlanSettingsView {
        PlanSettingsView {
            policy: self.policy(),
            target: self.target(),
            mode: session::mode_of(self.mode),
            remux: self.action_remux,
            output_directory: self.output_directory,
        }
    }

    /// The name and the value of a setting.
    pub open spec fn field(self, index: usize) -> (Seq<char>, Seq<char>) {
        if index == 0 {
            ("Profile"@, self.profile_name())
        } else if index == 1 {
            (
                "Action"@,
                if self.action_remux {
                    "remux"@
                } else {
                    "convert"@
                },
            )
        } else if index == 2 {
            ("Codec"@, self.codec)
        } else if index == 3 {
            ("Bitrate"@, self.bitrate)
        } else if index == 4 {
            ("Channels"@, self.channels)
        } else if index == 5 {
            ("Mode"@, self.mode)
        } else if index == 6 {
            ("Jobs"@, number::decimal(self.jobs as int))
        } else if index == 7 {
            ("Storage"@, self.storage_profile)
        } else if index == 8 {
            ("Failures"@, self.failure_policy.label())
        } else {
            (
                "Dry run"@,
                if self.dry_run {
                    "yes"@
                } else {
                    "no"@
                },
            )
        }
    }

    /// The settings with the selected one changed.
    pub open spec fn changed(self, back: bool) -> UiSettingsView {
        let field = self.selected_field;
        if field == 0 {
            UiSettingsView {
                profile: cycled(self.profile as int, self.profiles.len() as int, back) as usize,
                ..self
            }
        } else if field == 1 {
            UiSettingsView { action_remux: !self.action_remux, ..self }
        } else if field == 2 {
            let codec = cycled_value(self.codec, codecs(), back);
            UiSettingsView { codec, bitrate: usual_bitrate(codec), ..self }
        } else if field == 3 {
            UiSettingsView {
                bitrate: cycled_value(self.bitrate, bitrates(self.codec), back),
                ..self
            }
        } else if field == 4 {
            UiSettingsView { channels: cycled_value(self.channels, layouts(), back), ..self }
        } else if field == 5 {
            UiSettingsView { mode: cycled_value(self.mode, modes(), back), ..self }
        } else if field == 6 {
            UiSettingsView {
                jobs: if back {
                    if self.jobs <= 2 {
                        1
                    } else {
                        (self.jobs - 1) as usize
                    }
                } else if self.jobs >= 64 {
                    64
                } else {
                    (self.jobs + 1) as usize
                },
                ..self
            }
        } else if field == 7 {
            let storage_profile = cycled_value(self.storage_profile, storage_kinds(), back);
            UiSettingsView {
                storage_profile,
                jobs: if storage_profile == "hdd"@ {
                    1
                } else {
                    self.jobs
                },
                ..self
            }
        } else if field == 8 {
            UiSettingsView {
                failure_policy: match self.failure_policy {
                    FailurePolicy::Continue => FailurePolicy::FailFast,
                    FailurePolicy::FailFast => FailurePolicy::Continue,
                },
                ..self
            }
        } else {
            UiSettingsView { dry_run: !self.dry_run, ..self }
        }
    }
}

/// The settings of a session that begins with a configuration.
pub open spec fn initial_settings(
    config: EffectiveConfigView,
    dry_run: bool,
    output_directory: Option<Seq<u8>>,
) -> Result<UiSettingsView, ConfigErrorView> {
    match session::all_choices(session::names_in(config), config.custom_profiles) {
        Err(e) => Err(e),
        Ok(profiles) => Ok(
            UiSettingsView {
                profiles,
                profile: match session::choice_index(profiles, config.profile.value, 0) {
                    Some(i) => i as usize,
                    None => 0,
                },
                action_remux: false,
                codec: config.codec.value,
                bitrate: config.bitrate.value,
                channels: config.channels.value,
                mode: config.mode.value,
                jobs: config.jobs.value,
                storage_profile: config.storage_profile.value,
                failure_policy: FailurePolicy::Continue,
                dry_run,
                output_directory,
                selected_field: 0,
            },
        ),
    }
}

impl UiSettings {
    /// The settings of a session that begins with a configuration.
    pub fn from_config(
        config: &EffectiveConfig,
        dry_run: bool,
        output_directory: Option<FilePath>,
    ) -> (r: Result<Self, ConfigError>)
        ensures
            match r {
                Ok(s) => s@.well_formed() && initial_settings(
                    config@,
                    dry_run,
                    output_directory.deep_view(),
                ) == Ok::<UiSettingsView, ConfigErrorView>(s@),
                Err(e) => initial_settings(
                    config@,
                    dry_run,
                    output_directory.deep_view(),
                ) == Err::<UiSettingsView, ConfigErrorView>(e@),
            },
    {
        let profiles = match session::list_choices(config) {
            Ok(profiles) => profiles,
            Err(e) => {
                return Err(e);
            },
        };
        let profile: usize = match session::find_choice(
            &profiles,
            config.profile.value().as_str(),
        ) {
            Some(i) => i,
            None => 0,
        };
        proof {
            assert(profiles.deep_view().len() == profiles@.len());
        }
        Ok(
            UiSettings {
                profiles,
                profile,
                action_remux: false,
                codec: config.codec.value().clone(),
                bitrate: config.bitrate.value().clone(),
                channels: config.channels.value().clone(),
                mode: config.mode.value().clone(),
                jobs: *config.jobs.value(),
                storage_profile: config.storage_profile.value().clone(),
                failure_policy: FailurePolicy::Continue,
                dry_run,
                output_directory,
                selected_field: 0,
            },
        )
    }

    /// The name of the profile that is chosen.
    pub fn profile_name(&self) -> (r: &str)
        ensures
            r@ == self@.profile_name(),
    {
        let ghost all = self.profiles.deep_view();
        if self.profile < self.profiles.len() {
            proof {
                assert(all[self.profile as int] == self.profiles@[self.profile as int]@);
            }
            self.profiles[self.profile].name.as_str()
        } else {
            "generic-tv"
        }
    }

    /// The rules of the profile that is chosen.
    pub fn policy(&self) -> (r: CompatibilityPolicy)
        ensures
            r@ == self@.policy(),
    {
        let ghost all = self.profiles.deep_view();
        if self.profile < self.profiles.len() {
            proof {
                assert(all[self.profile as int] == self.profiles@[self.profile as int]@);
            }
            self.profiles[self.profile].policy.clone()
        } else {
            session::fallback_policy()
        }
    }

    /// The target, or what is wrong with it.
    pub fn target(&self) -> (r: Result<AudioTarget, String>)
        ensures
            session::text_result(r) == self@.target(),
    {
        session::build_target(self.codec.as_str(), self.bitrate.as_str(), self.channels.as_str())
    }

    /// The output mode, or what is wrong with it.
    pub fn output_mode(&self) -> (r: Result<OutputMode, String>)
        ensures
            match r {
                Ok(mode) => session::mode_of(self@.mode) == Ok::<OutputMode, Seq<char>>(mode),
                Err(message) => session::mode_of(self@.mode) == Err::<OutputMode, Seq<char>>(
                    message@,
                ),
            },
    {
        session::build_mode(self.mode.as_str())
    }

    /// What plans depend on.
    pub fn planning(&self) -> (r: PlanSettings)
        ensures
            r@ == self@.planning(),
    {
        PlanSettings {
            policy: self.policy(),
            target: self.target(),
            mode: self.output_mode(),
            remux: self.action_remux,
            output_directory: path::copy_path(&self.output_directory),
        }
    }

    /// How many settings there are.
    pub fn field_count() -> (r: usize)
        ensures
            r == FIELD_COUNT,
    {
        FIELD_COUNT
    }

    /// The name and the value of a setting.
    pub fn field_label(&self, index: usize) -> (r: (&'static str, String))
        ensures
            (r.0@, r.1@) == self@.field(index),
    {
        match index {
            0 => ("Profile", self.profile_name().to_owned()),
            1 => (
                "Action",
                if self.action_remux {
                    "remux".to_owned()
                } else {
                    "convert".to_owned()
                },
            ),
            2 => ("Codec", self.codec.clone()),
            3 => ("Bitrate", self.bitrate.clone()),
            4 => ("Channels", self.channels.clone()),
            5 => ("Mode", self.mode.clone()),
            6 => ("Jobs", number::show_usize(self.jobs)),
            7 => ("Storage", self.storage_profile.clone()),
            8 => ("Failures", self.failure_policy.as_str().to_owned()),
            _ => (
                "Dry run",
                if self.dry_run {
                    "yes".to_owned()
                } else {
                    "no".to_owned()
                },
            ),
        }
    }

    /// Changes the selected setting.
    pub fn change(&mut self, direction: i32)
        requires
            old(self)@.well_formed(),
        ensures
            final(self)@ == old(self)@.changed(direction < 0),
            final(self)@.well_formed(),
    {
        let ghost all = self.profiles.deep_view();
        let n: usize = self.profiles.len();
        proof {
            assert(all.len() == n);
        }
        match self.selected_field {
            0 => {
                proof {
                    if n > 0 {
                        law_cycling_can_be_undone(self.profile as int, n as int, direction < 0);
                    }
                }
                self.profile = cycle_index(self.profile, n, direction);
            },
            1 => {
                self.action_remux = !self.action_remux;
            },
            2 => {
                self.codec = cycle_value(self.codec.as_str(), "ac3", "eac3", "aac", direction);
                self.bitrate = default_bitrate(self.codec.as_str()).to_owned();
            },
            3 => {
                self.bitrate = cycle_bitrate(
                    self.bitrate.as_str(),
                    self.codec.as_str(),
                    direction,
                );
            },
            4 => {
                self.channels = cycle_value(
                    self.channels.as_str(),
                    "keep-up-to-5.1",
                    "stereo",
                    "5.1",
                    direction,
                );
            },
            5 => {
                self.mode = cycle_value(
                    self.mode.as_str(),
                    "add",
                    "replace",
                    "only-new",
                    direction,
                );
            },
            6 => {
                self.jobs = if direction < 0 {
                    if self.jobs <= 2 {
                        1
                    } else {
                        self.jobs - 1
                    }
                } else if self.jobs >= 64 {
                    64
                } else {
                    self.jobs + 1
                };
            },
            7 => {
                self.storage_profile = cycle_value(
                    self.storage_profile.as_str(),
                    "hdd",
                    "balanced",
                    "nvme",
                    direction,
                );
                if text::same(
                    self.storage_profile.as_str(),
                    StorageProfileChoice::Hdd.as_str(),
                ) {
                    self.jobs = 1;
                }
            },
            8 => {
                self.failure_policy = match self.failure_policy {
                    FailurePolicy::Continue => FailurePolicy::FailFast,
                    FailurePolicy::FailFast => FailurePolicy::Continue,
                };
            },
            _ => {
                self.dry_run = !self.dry_run;
            },
        }
    }
}

/// However the settings are changed, at least one file and at most as many as a batch allows are
/// worked on at once, where that held before.
pub proof fn law_jobs_stay_in_range(settings: UiSettingsView, back: bool)
    requires
        1 <= settings.jobs <= 64,
    ensures
        1 <= settings.changed(back).jobs <= 64,
{
}

} // verus!
