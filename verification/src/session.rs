//! What the interfaces share: how settings are read, where outputs go and what is planned.
use std::collections::VecDeque;
use vstd::prelude::*;
use vstd::utf8::*;

use crate::cli::dto;
use crate::media::{MediaInfo, MediaInfoView};
use crate::model::StreamIndex;
use crate::number;
use crate::path;
use crate::path::FilePath;
use crate::plan;
use crate::plan::{
    ActionView, AudioSelector, OperationView, OutputMode, PlanOutcome, PlanOutcomeView,
    PlanningPolicy, PlanningView, RequestedAction, SelectorView,
};
use crate::policy::{CompatibilityPolicy, PolicyView, ProfileName, ProfileNameView};
use crate::runtime::config;
use crate::runtime::config::{
    ConfigError, ConfigErrorView, EffectiveConfig, EffectiveConfigView, ProfileFileView,
};
use crate::table;
use crate::target;
use crate::target::{
    AacBitrate, Ac3Bitrate, AudioTarget, Eac3Bitrate, TargetBitrateErrorView, TargetView,
};
use crate::text;

verus! {

/// Bits per second as text: a number, in thousands with a `k` behind it, in either case.
pub open spec fn bitrate_of(value: Seq<char>) -> Option<int> {
    let s = text::lower(text::trim(value));
    let (digits, factor) = if s.len() > 0 && s.last() == 'k' {
        (s.drop_last(), 1_000int)
    } else {
        (s, 1int)
    };
    match number::read_unsigned(digits, u64::MAX as int) {
        Some(n) => if n * factor <= u64::MAX {
            Some(n * factor)
        } else {
            None
        },
        None => None,
    }
}

/// Reads bits per second.
pub fn parse_bitrate(value: &str) -> (r: Result<u64, String>)
    ensures
        match r {
            Ok(n) => bitrate_of(value@) == Some(n as int),
            Err(message) => bitrate_of(value@) is None && message@ == "invalid bitrate `"@ + value@
                + "`"@,
        },
{
    let normalized = text::to_lower(text::trimmed(value).as_str());
    let chars = text::chars_of(normalized.as_str());
    let n: usize = chars.len();
    let thousands = n > 0 && chars[n - 1] == 'k';
    let factor: u64 = if thousands {
        1_000
    } else {
        1
    };
    let digits = if thousands {
        let d = text::slice_text(&chars, 0, n - 1);
        proof {
            assert(d@ =~= normalized@.drop_last());
        }
        d
    } else {
        normalized
    };
    let product = match number::parse_u64_text(digits.as_str()) {
        Some(count) => count.checked_mul(factor),
        None => None,
    };
    match product {
        Some(rate) => Ok(rate),
        None => Err(text::concat3("invalid bitrate `", value, "`")),
    }
}

/// The target that three settings stand for: the first fault of bitrate, layout, codec and the
/// bitrate for the codec.
pub open spec fn target_of(
    codec: Seq<char>,
    bitrate: Seq<char>,
    channels: Seq<char>,
) -> Result<TargetView, Seq<char>> {
    match (bitrate_of(bitrate), config::layout_value(channels)) {
        (None, _) => Err("invalid bitrate `"@ + bitrate + "`"@),
        (Some(_), None) => Err("unsupported channel layout `"@ + channels + "`"@),
        (Some(rate), Some(layout)) => {
            let bits = rate as u64;
            if codec == "ac3"@ {
                if target::ac3_bitrates().contains(bits) {
                    Ok(TargetView::Ac3 { bitrate: bits, layout })
                } else {
                    Err((TargetBitrateErrorView::UnsupportedAc3 { bitrate: bits }).message())
                }
            } else if codec == "eac3"@ {
                if 32_000 <= bits <= 6_144_000 {
                    Ok(TargetView::Eac3 { bitrate: bits, layout })
                } else {
                    Err(
                        (TargetBitrateErrorView::OutOfRange {
                            codec: "E-AC-3"@,
                            bitrate: bits,
                            minimum: 32_000,
                            maximum: 6_144_000,
                        }).message(),
                    )
                }
            } else if codec == "aac"@ {
                if 8_000 <= bits <= 1_024_000 {
                    Ok(TargetView::Aac { bitrate: bits, layout })
                } else {
                    Err(
                        (TargetBitrateErrorView::OutOfRange {
                            codec: "AAC"@,
                            bitrate: bits,
                            minimum: 8_000,
                            maximum: 1_024_000,
                        }).message(),
                    )
                }
            } else {
                Err("unsupported target codec `"@ + codec + "`"@)
            }
        },
    }
}

/// The target that three settings stand for.
pub fn build_target(codec: &str, bitrate: &str, channels: &str) -> (r: Result<AudioTarget, String>)
    ensures
        text_result(r) == target_of(codec@, bitrate@, channels@),
{
    let rate = match parse_bitrate(bitrate) {
        Ok(n) => n,
        Err(message) => {
            return Err(message);
        },
    };
    let layout = match config::find_layout(channels) {
        Some(layout) => layout,
        None => {
            return Err(text::concat3("unsupported channel layout `", channels, "`"));
        },
    };
    if text::same(codec, "ac3") {
        match Ac3Bitrate::new(rate) {
            Ok(bitrate) => Ok(AudioTarget::Ac3 { bitrate, layout }),
            Err(e) => Err(e.message()),
        }
    } else if text::same(codec, "eac3") {
        match Eac3Bitrate::new(rate) {
            Ok(bitrate) => Ok(AudioTarget::Eac3 { bitrate, layout }),
            Err(e) => Err(e.message()),
        }
    } else if text::same(codec, "aac") {
        match AacBitrate::new(rate) {
            Ok(bitrate) => Ok(AudioTarget::Aac { bitrate, layout }),
            Err(e) => Err(e.message()),
        }
    } else {
        Err(text::concat3("unsupported target codec `", codec, "`"))
    }
}

/// What is told of a result that fails with a text.
pub open spec fn text_result<T: View>(r: Result<T, String>) -> Result<T::V, Seq<char>> {
    match r {
        Ok(value) => Ok(value@),
        Err(message) => Err(message@),
    }
}

/// The output mode that a setting stands for.
pub open spec fn mode_of(value: Seq<char>) -> Result<OutputMode, Seq<char>> {
    match config::mode_value(value) {
        Some(mode) => Ok(mode),
        None => Err("unsupported output mode `"@ + value + "`"@),
    }
}

/// The output mode that a setting stands for.
pub fn build_mode(value: &str) -> (r: Result<OutputMode, String>)
    ensures
        match r {
            Ok(mode) => mode_of(value@) == Ok::<OutputMode, Seq<char>>(mode),
            Err(message) => mode_of(value@) == Err::<OutputMode, Seq<char>>(message@),
        },
{
    match config::parse_mode(value) {
        Some(mode) => Ok(mode),
        None => Err(text::concat3("unsupported output mode `", value, "`")),
    }
}

/// Where the output of an input goes: beside it or into a directory, under a name of its own.
pub open spec fn output_for(input: Seq<u8>, directory: Option<Seq<u8>>) -> Seq<u8> {
    let stem = match path::file_stem(input) {
        Some(stem) => stem,
        None => encode_utf8("output"@),
    };
    let place = match directory {
        Some(d) => d,
        None => match path::parent(input) {
            Some(p) => p,
            None => encode_utf8("."@),
        },
    };
    path::join(place, stem + encode_utf8(".sonicmux.mkv"@))
}

/// Where the output of an input goes.
pub fn default_output(input: &FilePath, directory: &Option<FilePath>) -> (r: FilePath)
    ensures
        r@ == output_for(input@, directory.deep_view()),
{
    let stem = match input.file_stem() {
        Some(stem) => stem,
        None => FilePath::from_text("output"),
    };
    let name = stem.with_suffix(".sonicmux.mkv");
    match directory {
        Some(d) => d.join(&name),
        None => match input.parent() {
            Some(p) => p.join(&name),
            None => FilePath::from_text(".").join(&name),
        },
    }
}

/// A device profile that can be chosen.
#[derive(Debug)]
pub struct ProfileChoice {
    /// Its name.
    pub name: String,
    /// Its rules.
    pub policy: CompatibilityPolicy,
}

/// A device profile that can be chosen.
pub struct ProfileChoiceView {
    /// Its name.
    pub name: Seq<char>,
    /// Its rules.
    pub policy: PolicyView,
}

impl View for ProfileChoice {
    type V = ProfileChoiceView;

    open spec fn view(&self) -> ProfileChoiceView {
        ProfileChoiceView {
            name: self.name@,
            policy: self.policy@,
        }
    }
}

impl DeepView for ProfileChoice {
    type V = ProfileChoiceView;

    open spec fn deep_view(&self) -> ProfileChoiceView {
        self@
    }
}

impl Clone for ProfileChoice {
    fn clone(&self) -> (r: Self)
        ensures
            r@ == self@,
    {
        let r = ProfileChoice {
            name: self.name.clone(),
            policy: self.policy.clone(),
        };
        r
    }
}

/// The profiles of the user and the built-in ones, where all of them can be used.
pub open spec fn all_choices(
    names: Seq<Seq<char>>,
    custom: Map<Seq<char>, ProfileFileView>,
) -> Result<Seq<ProfileChoiceView>, ConfigErrorView>
    decreases names.len(),
{
    if names.len() == 0 {
        Ok(seq![])
    } else {
        match all_choices(names.drop_last(), custom) {
            Ok(choices) => match config::policy_named(names.last(), custom) {
                Ok(policy) => Ok(
                    choices.push(ProfileChoiceView { name: names.last(), policy }),
                ),
                Err(e) => Err(e),
            },
            Err(e) => Err(e),
        }
    }
}

/// Those of the profiles that can be used.
pub open spec fn usable_choices(
    names: Seq<Seq<char>>,
    custom: Map<Seq<char>, ProfileFileView>,
) -> Seq<ProfileChoiceView>
    decreases names.len(),
{
    if names.len() == 0 {
        seq![]
    } else {
        let choices = usable_choices(names.drop_last(), custom);
        match config::policy_named(names.last(), custom) {
            Ok(policy) => choices.push(ProfileChoiceView { name: names.last(), policy }),
            Err(_) => choices,
        }
    }
}

/// The names of the profiles of a configuration.
pub open spec fn names_in(config: EffectiveConfigView) -> Seq<Seq<char>> {
    config::builtin_names() + config::keys_of(table::listing(config.custom_profiles))
}

proof fn lemma_first_fault(
    names: Seq<Seq<char>>,
    custom: Map<Seq<char>, ProfileFileView>,
    n: int,
)
    requires
        0 <= n <= names.len(),
        all_choices(names.take(n), custom) is Err,
    ensures
        all_choices(names, custom) == all_choices(names.take(n), custom),
    decreases names.len() - n,
{
    if n < names.len() {
        assert(names.take(n + 1).drop_last() =~= names.take(n));
        lemma_first_fault(names, custom, n + 1);
    } else {
        assert(names.take(n) =~= names);
    }
}

/// The profiles of a configuration, where all of them can be used.
pub fn list_choices(config: &EffectiveConfig) -> (r: Result<Vec<ProfileChoice>, ConfigError>)
    ensures
        match r {
            Ok(choices) => all_choices(names_in(config@), config@.custom_profiles) == Ok::<
                Seq<ProfileChoiceView>,
                ConfigErrorView,
            >(choices.deep_view()),
            Err(e) => all_choices(names_in(config@), config@.custom_profiles) == Err::<
                Seq<ProfileChoiceView>,
                ConfigErrorView,
            >(e@),
        },
{
    let names = config.profile_names();
    let ghost all = names.deep_view();
    let ghost custom = config@.custom_profiles;
    let mut out: Vec<ProfileChoice> = Vec::new();
    let mut i: usize = 0;
    proof {
        assert(all.take(0) =~= seq![]);
        assert(out.deep_view() =~= seq![]);
    }
    while i < names.len()
        invariant
            all == names.deep_view(),
            all == names_in(config@),
            custom == config@.custom_profiles,
            i <= names@.len(),
            all_choices(all.take(i as int), custom) == Ok::<
                Seq<ProfileChoiceView>,
                ConfigErrorView,
            >(out.deep_view()),
        decreases names@.len() - i,
    {
        let ghost before = out.deep_view();
        proof {
            assert(all.take(i + 1).drop_last() =~= all.take(i as int));
            assert(all.take(i + 1).last() == all[i as int]);
            assert(all[i as int] == names@[i as int]@);
        }
        let policy = match config.compatibility_policy_named(names[i]) {
            Ok(policy) => policy,
            Err(e) => {
                proof {
                    lemma_first_fault(all, custom, i + 1);
                }
                return Err(e);
            },
        };
        let choice = ProfileChoice { name: names[i].to_owned(), policy };
        out.push(choice);
        proof {
            assert(out.deep_view() =~= before.push(choice@));
        }
        i = i + 1;
    }
    proof {
        assert(all.take(i as int) =~= all);
    }
    Ok(out)
}

/// Those profiles of a configuration that can be used.
pub fn list_usable_choices(config: &EffectiveConfig) -> (r: Vec<ProfileChoice>)
    ensures
        r.deep_view() == usable_choices(names_in(config@), config@.custom_profiles),
{
    let names = config.profile_names();
    let ghost all = names.deep_view();
    let ghost custom = config@.custom_profiles;
    let mut out: Vec<ProfileChoice> = Vec::new();
    let mut i: usize = 0;
    proof {
        assert(all.take(0) =~= seq![]);
        assert(out.deep_view() =~= seq![]);
    }
    while i < names.len()
        invariant
            all == names.deep_view(),
            custom == config@.custom_profiles,
            i <= names@.len(),
            out.deep_view() == usable_choices(all.take(i as int), custom),
        decreases names@.len() - i,
    {
        let ghost before = out.deep_view();
        proof {
            assert(all.take(i + 1).drop_last() =~= all.take(i as int));
            assert(all.take(i + 1).last() == all[i as int]);
            assert(all[i as int] == names@[i as int]@);
        }
        match config.compatibility_policy_named(names[i]) {
            Ok(policy) => {
                let choice = ProfileChoice { name: names[i].to_owned(), policy };
                out.push(choice);
                proof {
                    assert(out.deep_view() =~= before.push(choice@));
                }
            },
            Err(_) => {},
        }
        i = i + 1;
    }
    proof {
        assert(all.take(i as int) =~= all);
    }
    out
}

/// The place of the first profile of a name at or behind a place.
pub open spec fn choice_index(choices: Seq<ProfileChoiceView>, name: Seq<char>, from: int) -> Option<
    int,
>
    decreases choices.len() - from,
{
    if from >= choices.len() || from < 0 {
        None
    } else if choices[from].name == name {
        Some(from)
    } else {
        choice_index(choices, name, from + 1)
    }
}

/// The place of the first profile of a name.
pub fn find_choice(choices: &Vec<ProfileChoice>, name: &str) -> (r: Option<usize>)
    ensures
        match r {
            Some(i) => i < choices@.len() && choice_index(choices.deep_view(), name@, 0) == Some(
                i as int,
            ),
            None => choice_index(choices.deep_view(), name@, 0) is None,
        },
{
    let ghost all = choices.deep_view();
    let mut i: usize = 0;
    while i < choices.len()
        invariant
            all == choices.deep_view(),
            i <= choices@.len(),
            choice_index(all, name@, 0) == choice_index(all, name@, i as int),
        decreases choices@.len() - i,
    {
        proof {
            assert(all[i as int] == choices@[i as int]@);
        }
        if text::same(choices[i].name.as_str(), name) {
            return Some(i);
        }
        i = i + 1;
    }
    None
}

/// The rules for any television.
pub open spec fn generic_policy() -> PolicyView {
    config::base_policy(ProfileNameView::GenericTv)
}

/// The rules for any television.
pub fn fallback_policy() -> (r: CompatibilityPolicy)
    ensures
        r@ == generic_policy(),
{
    CompatibilityPolicy::for_profile(ProfileName::GenericTv)
}

/// What a plan depends on besides the media file.
#[derive(Debug)]
pub struct PlanSettings {
    /// Rules of the playback device.
    pub policy: CompatibilityPolicy,
    /// The target, or what is wrong with it.
    pub target: Result<AudioTarget, String>,
    /// The output mode, or what is wrong with it.
    pub mode: Result<OutputMode, String>,
    /// Whether nothing is encoded.
    pub remux: bool,
    /// The directory of outputs.
    pub output_directory: Option<FilePath>,
}

/// What a plan depends on besides the media file.
pub struct PlanSettingsView {
    /// Rules of the playback device.
    pub policy: PolicyView,
    /// The target, or what is wrong with it.
    pub target: Result<TargetView, Seq<char>>,
    /// The output mode, or what is wrong with it.
    pub mode: Result<OutputMode, Seq<char>>,
    /// Whether nothing is encoded.
    pub remux: bool,
    /// The directory of outputs.
    pub output_directory: Option<Seq<u8>>,
}

impl View for PlanSettings {
    type V = PlanSettingsView;

    open spec fn view(&self) -> PlanSettingsView {
        PlanSettingsView {
            policy: self.policy@,
            target: text_result(self.target),
            mode: match self.mode {
                Ok(mode) => Ok(mode),
                Err(message) => Err(message@),
            },
            remux: self.remux,
            output_directory: self.output_directory.deep_view(),
        }
    }
}

/// Why there is no plan.
pub enum PlanTrouble {
    /// The settings cannot be used.
    Settings(String),
    /// The media file cannot be planned for.
    Plan(String),
}

/// Why there is no plan.
pub enum PlanTroubleView {
    /// The settings cannot be used.
    Settings(Seq<char>),
    /// The media file cannot be planned for.
    Plan(Seq<char>),
}

impl View for PlanTrouble {
    type V = PlanTroubleView;

    open spec fn view(&self) -> PlanTroubleView {
        match self {
            PlanTrouble::Settings(message) => PlanTroubleView::Settings(message@),
            PlanTrouble::Plan(message) => PlanTroubleView::Plan(message@),
        }
    }
}

/// The plan for a media file under these settings.
pub open spec fn planned(
    media: MediaInfoView,
    settings: PlanSettingsView,
    output: Seq<u8>,
) -> Result<PlanOutcomeView, PlanTroubleView> {
    match (settings.target, settings.mode) {
        (Err(message), _) => Err(PlanTroubleView::Settings(message)),
        (Ok(_), Err(message)) => Err(PlanTroubleView::Settings(message)),
        (Ok(target), Ok(output_mode)) => {
            let policy = PlanningView {
                compatibility: settings.policy,
                target,
                output_mode,
                action: if settings.remux {
                    ActionView::RemuxOnly { selection: SelectorView::FirstCompatible }
                } else {
                    ActionView::Convert
                },
                output_path: output,
            };
            match plan::outcome(media, policy) {
                Ok(o) => Ok(o),
                Err(e) => Err(PlanTroubleView::Plan(e.message())),
            }
        },
    }
}

/// Plans for a media file under these settings.
pub fn build_plan(media: &MediaInfo, settings: &PlanSettings, output: &FilePath) -> (r: Result<
    PlanOutcome,
    PlanTrouble,
>)
    ensures
        match r {
            Ok(o) => planned(media@, settings@, output@) == Ok::<PlanOutcomeView, PlanTroubleView>(
                o@,
            ),
            Err(e) => planned(media@, settings@, output@) == Err::<
                PlanOutcomeView,
                PlanTroubleView,
            >(e@),
        },
{
    let target = match &settings.target {
        Ok(target) => *target,
        Err(message) => {
            return Err(PlanTrouble::Settings(message.clone()));
        },
    };
    let mode = match &settings.mode {
        Ok(mode) => *mode,
        Err(message) => {
            return Err(PlanTrouble::Settings(message.clone()));
        },
    };
    let action = if settings.remux {
        RequestedAction::RemuxOnly { selection: AudioSelector::FirstCompatible }
    } else {
        RequestedAction::Convert
    };
    let policy = PlanningPolicy::new(
        settings.policy.clone(),
        target,
        mode,
        action,
        output.clone(),
    );
    match plan::build(media, &policy) {
        Ok(o) => Ok(o),
        Err(e) => Err(PlanTrouble::Plan(e.message())),
    }
}

/// Whether a plan copies a stream.
pub open spec fn copies(streams: Seq<OperationView>, source: u32) -> bool {
    exists|i: int|
        0 <= i < streams.len() && (#[trigger] streams[i]).source() == source && streams[i] is Copy
}

/// Whether a plan encodes a stream.
pub open spec fn encodes(streams: Seq<OperationView>, source: u32) -> bool {
    exists|i: int|
        0 <= i < streams.len() && (#[trigger] streams[i]).source() == source
            && streams[i] is EncodeAudio
}

/// What a plan does with a stream, in a word.
pub open spec fn action_text(plan: Option<PlanOutcomeView>, source: u32) -> Seq<char> {
    match plan {
        Some(PlanOutcomeView::Skip(_)) => "none"@,
        Some(PlanOutcomeView::Execute(job)) => match (
            copies(job.streams, source),
            encodes(job.streams, source),
        ) {
            (true, true) => "copy+encode"@,
            (false, true) => "encode"@,
            (true, false) => "copy"@,
            (false, false) => "omit"@,
        },
        None => "pending"@,
    }
}

/// What a plan does with a stream, in a word.
pub fn planned_action(plan: &Option<PlanOutcome>, source: StreamIndex) -> (r: &'static str)
    ensures
        r@ == action_text(plan.deep_view(), source@),
{
    let job = match plan {
        Some(PlanOutcome::Skip(_)) => {
            return "none";
        },
        Some(PlanOutcome::Execute(job)) => job,
        None => {
            return "pending";
        },
    };
    let streams = job.streams();
    let ghost all = streams.deep_view();
    let mut copy = false;
    let mut encode = false;
    let mut i: usize = 0;
    while i < streams.len()
        invariant
            all == streams.deep_view(),
            i <= streams@.len(),
            copy == (exists|k: int|
                0 <= k < i && (#[trigger] all[k]).source() == source@ && all[k] is Copy),
            encode == (exists|k: int|
                0 <= k < i && (#[trigger] all[k]).source() == source@ && all[k] is EncodeAudio),
        decreases streams@.len() - i,
    {
        proof {
            assert(all[i as int] == streams@[i as int]@);
        }
        if streams[i].source().get() == source.get() {
            if streams[i].is_encode() {
                encode = true;
            } else {
                copy = true;
            }
        }
        i = i + 1;
    }
    proof {
        assert(all.len() == streams@.len());
        assert(copy == copies(all, source@));
        assert(encode == encodes(all, source@));
    }
    if copy && encode {
        "copy+encode"
    } else if encode {
        "encode"
    } else if copy {
        "copy"
    } else {
        "omit"
    }
}

/// What a plan comes to, in a few words.
pub open spec fn summary_text(plan: Option<PlanOutcomeView>) -> Seq<char> {
    match plan {
        Some(PlanOutcomeView::Skip(_)) => "Already compatible"@,
        Some(PlanOutcomeView::Execute(job)) => if dto::encoded(job.streams) == 0 {
            "Remux only"@
        } else {
            "Encode "@ + number::decimal(dto::encoded(job.streams) as int)
                + " audio track(s); copy video"@
        },
        None => "Waiting for probe"@,
    }
}

/// What a plan comes to, in a few words.
pub fn plan_summary(plan: &Option<PlanOutcome>) -> (r: String)
    ensures
        r@ == summary_text(plan.deep_view()),
{
    match plan {
        Some(PlanOutcome::Skip(_)) => "Already compatible".to_owned(),
        Some(PlanOutcome::Execute(job)) => {
            let encoded: usize = dto::count_encoded(job.streams());
            if encoded == 0 {
                "Remux only".to_owned()
            } else {
                text::concat3(
                    "Encode ",
                    number::show_usize(encoded).as_str(),
                    " audio track(s); copy video",
                )
            }
        },
        None => "Waiting for probe".to_owned(),
    }
}

/// The name under which a file is shown: its file name, or its path where it has none.
pub open spec fn shown_name(input: Seq<u8>) -> Seq<char> {
    match path::file_name(input) {
        Some(name) => text::lossy(name),
        None => text::lossy(input),
    }
}

/// The name under which a file is shown.
pub fn show_name(input: &FilePath) -> (r: String)
    ensures
        r@ == shown_name(input@),
{
    match input.file_name() {
        Some(name) => name.display(),
        None => input.display(),
    }
}

/// How far a file is in thousandths.
pub open spec fn progress_of(position: Option<u64>, duration: Option<u64>) -> Option<u16> {
    match (position, duration) {
        (Some(p), Some(d)) => if d > 0 {
            let scaled = if p * 1_000 > u64::MAX {
                u64::MAX as int
            } else {
                p * 1_000
            };
            let milli = scaled / d as int;
            Some(
                if milli > 1_000 {
                    1_000u16
                } else {
                    milli as u16
                },
            )
        } else {
            None
        },
        _ => None,
    }
}

/// How far a file is in thousandths.
pub fn measure_progress(position: Option<u64>, duration: Option<u64>) -> (r: Option<u16>)
    ensures
        r == progress_of(position, duration),
{
    match (position, duration) {
        (Some(p), Some(d)) => {
            if d > 0 {
                let scaled: u64 = match p.checked_mul(1_000) {
                    Some(n) => n,
                    None => u64::MAX,
                };
                let milli: u64 = scaled / d;
                if milli > 1_000 {
                    Some(1_000)
                } else {
                    Some(milli as u16)
                }
            } else {
                None
            }
        },
        _ => None,
    }
}

/// Messages with one more; of as many as are kept the first goes.
pub open spec fn logged(logs: Seq<Seq<char>>, message: Seq<char>, capacity: nat) -> Seq<Seq<char>> {
    if logs.len() == capacity && logs.len() > 0 {
        logs.drop_first().push(message)
    } else {
        logs.push(message)
    }
}

/// Keeps a message; of as many as are kept the first goes.
pub fn append_log(logs: &mut VecDeque<String>, message: String, capacity: usize)
    ensures
        final(logs).deep_view() == logged(old(logs).deep_view(), message@, capacity as nat),
{
    let ghost before = logs.deep_view();
    if logs.len() == capacity {
        let _ = logs.pop_front();
    }
    logs.push_back(message);
    proof {
        assert(logs.deep_view() =~= logged(before, message@, capacity as nat));
    }
}

/// Never more messages are kept than there is room for, the newest one stands last, and nothing
/// else goes but the oldest one.
pub proof fn law_log_is_bounded(logs: Seq<Seq<char>>, message: Seq<char>, capacity: nat)
    requires
        logs.len() <= capacity,
        capacity > 0,
    ensures
        logged(logs, message, capacity).len() <= capacity,
        logged(logs, message, capacity).last() == message,
        forall|i: int|
            0 < i < logs.len() ==> logged(logs, message, capacity).contains(#[trigger] logs[i]),
{
    let after = logged(logs, message, capacity);
    assert forall|i: int| 0 < i < logs.len() implies after.contains(#[trigger] logs[i]) by {
        if logs.len() == capacity {
            assert(after[i - 1] == logs[i]);
        } else {
            assert(after[i] == logs[i]);
        }
    }
}

/// No file is further than at its end.
pub proof fn law_progress_is_bounded(position: Option<u64>, duration: Option<u64>)
    ensures
        progress_of(position, duration) matches Some(milli) ==> milli <= 1_000,
{
    if let (Some(p), Some(d)) = (position, duration) {
        if d > 0 {
            let scaled = if p * 1_000 > u64::MAX {
                u64::MAX as int
            } else {
                p * 1_000
            };
            assert(scaled / d as int >= 0) by (nonlinear_arith)
                requires
                    scaled >= 0,
                    d > 0,
            ;
        }
    }
}

} // verus!
