//! What holds of merged settings and of the values that they stand for.
use vstd::prelude::*;

use crate::execution::EntryFacts;
use crate::backend::{IoErrorKind, IoErrorView};
use crate::number;
use crate::plan::OutputMode;
use crate::policy::{PolicyView, ProfileNameView};
use crate::runtime::config;
use crate::runtime::config::{
    CodecRuleFileView, ConfigErrorView, ConfigPathView, DefaultConfigView, EffectiveConfigView,
    EnvironmentTextView, EnvironmentValuesView, FileConfigView, PartialConfigView,
    ProfileFileView, SourcedView, UnknownCodecFile,
};
use crate::stream::AudioCodecFamily;
use crate::table;
use crate::target::{TargetLayout, TargetView};
use crate::text;

verus! {

/// Whether a setting comes from the first place that has it: the command line, the environment, the
/// file, and else from what is built in; the source names that place.
pub open spec fn first_place_decides<V>(
    got: SourcedView<V>,
    cli: Option<V>,
    environment: Option<V>,
    file: Option<V>,
    built_in: V,
) -> bool {
    if cli is Some {
        got.value == cli->0 && got.source is Cli
    } else if environment is Some {
        got.value == environment->0 && got.source is Environment
    } else if file is Some {
        got.value == file->0 && got.source is File
    } else {
        got.value == built_in && got.source is Default
    }
}

/// Whether a setting that nothing is built in for comes from the first place that has it, and is
/// absent where none has.
pub open spec fn first_place_tells<V>(
    got: Option<SourcedView<V>>,
    cli: Option<V>,
    environment: Option<V>,
    file: Option<V>,
) -> bool {
    if cli is Some {
        got is Some && got->0.value == cli->0 && got->0.source is Cli
    } else if environment is Some {
        got is Some && got->0.value == environment->0 && got->0.source is Environment
    } else if file is Some {
        got is Some && got->0.value == file->0 && got->0.source is File
    } else {
        got is None
    }
}

/// Every merged setting comes from the first place that has it and names that place. What is built
/// in for the number of files at once is one on storage that seeks slowly. Profiles of the user come
/// from the file alone.
pub proof fn law_merged_by_precedence(
    built_in: DefaultConfigView,
    file: PartialConfigView,
    environment: PartialConfigView,
    cli: PartialConfigView,
)
    ensures
        ({
            let m = config::merged(built_in, file, environment, cli);
            let slow = m.storage_profile.value == "hdd"@;
            &&& first_place_decides(
                m.profile,
                cli.profile,
                environment.profile,
                file.profile,
                built_in.profile,
            )
            &&& first_place_decides(
                m.codec,
                cli.codec,
                environment.codec,
                file.codec,
                built_in.codec,
            )
            &&& first_place_decides(
                m.bitrate,
                cli.bitrate,
                environment.bitrate,
                file.bitrate,
                built_in.bitrate,
            )
            &&& first_place_decides(
                m.channels,
                cli.channels,
                environment.channels,
                file.channels,
                built_in.channels,
            )
            &&& first_place_decides(m.mode, cli.mode, environment.mode, file.mode, built_in.mode)
            &&& first_place_decides(
                m.jobs,
                cli.jobs,
                environment.jobs,
                file.jobs,
                if slow {
                    1usize
                } else {
                    built_in.jobs
                },
            )
            &&& first_place_decides(
                m.storage_profile,
                cli.storage_profile,
                environment.storage_profile,
                file.storage_profile,
                built_in.storage_profile,
            )
            &&& first_place_tells(
                m.ffmpeg_path,
                cli.ffmpeg_path,
                environment.ffmpeg_path,
                file.ffmpeg_path,
            )
            &&& first_place_tells(
                m.output_directory,
                cli.output_directory,
                environment.output_directory,
                file.output_directory,
            )
            &&& first_place_decides(
                m.color,
                cli.color,
                environment.color,
                file.color,
                built_in.color,
            )
            &&& first_place_tells(m.log_file, cli.log_file, environment.log_file, file.log_file)
            &&& m.custom_profiles == file.custom_profiles
        }),
{
}

/// Where no place says anything, what is built in holds: generic television, AC-3 at 640 kilobits
/// with the channels of the source, added, two files at once on balanced storage, color where it
/// can be.
pub proof fn law_built_in_settings()
    ensures
        ({
            let none = config::no_settings();
            let m = config::merged(config::built_in(), none, none, none);
            &&& m.profile.value == "generic-tv"@
            &&& m.codec.value == "ac3"@
            &&& m.bitrate.value == "640k"@
            &&& m.channels.value == "keep-up-to-5.1"@
            &&& m.mode.value == "add"@
            &&& m.jobs.value == 2
            &&& m.storage_profile.value == "balanced"@
            &&& m.color.value == "auto"@
            &&& m.ffmpeg_path is None
            &&& m.output_directory is None
            &&& m.log_file is None
            &&& m.custom_profiles.dom() == Set::<Seq<char>>::empty()
        }),
{
    reveal_strlit("hdd");
    reveal_strlit("balanced");
    assert("hdd"@.len() != "balanced"@.len());
}

/// The settings of a configuration file are those that it holds; it has none for the number of files
/// at once, the kind of storage, color and the log.
pub proof fn law_file_settings(file: FileConfigView)
    ensures
        ({
            let s = config::file_settings(file);
            &&& s.profile == file.profile
            &&& s.codec == file.codec
            &&& s.bitrate == file.bitrate
            &&& s.channels == file.channels
            &&& s.mode == file.mode
            &&& s.ffmpeg_path == file.ffmpeg_path
            &&& s.output_directory == file.output_directory
            &&& s.custom_profiles == file.profiles
            &&& s.jobs is None && s.storage_profile is None && s.color is None && s.log_file is None
        }),
{
}

/// Whether a variable of the environment gives a setting: the text that it holds, and none where it
/// is not there.
pub open spec fn variable_gives(
    variable: EnvironmentTextView,
    setting: Option<Seq<char>>,
) -> bool {
    match variable {
        EnvironmentTextView::Text(value) => setting == Some(value),
        _ => setting is None,
    }
}

/// The settings of the environment are the texts of its variables; the number of files at once is
/// the number that its variable spells.
pub proof fn law_environment_settings(values: EnvironmentValuesView)
    requires
        config::environment_fault(values) is None,
    ensures
        ({
            let s = config::environment_settings(values);
            &&& variable_gives(values.profile, s.profile)
            &&& variable_gives(values.codec, s.codec)
            &&& variable_gives(values.bitrate, s.bitrate)
            &&& variable_gives(values.channels, s.channels)
            &&& variable_gives(values.mode, s.mode)
            &&& variable_gives(values.storage_profile, s.storage_profile)
            &&& variable_gives(values.color, s.color)
            &&& s.ffmpeg_path == values.ffmpeg_path
            &&& s.output_directory == values.output_directory
            &&& s.log_file == values.log_file
            &&& s.custom_profiles.dom() == Set::<Seq<char>>::empty()
            &&& values.jobs is Absent ==> s.jobs is None
            &&& values.jobs is Text ==> s.jobs is Some && number::read_unsigned(
                values.jobs->Text_0,
                usize::MAX as int,
            ) == Some(s.jobs->0 as int)
        }),
{
    if values.jobs is Text {
        let t = values.jobs->Text_0;
        let digits = if t.len() > 0 && t[0] == '+' {
            t.drop_first()
        } else {
            t
        };
        number::lemma_number_nonnegative(digits);
    }
}

/// The environment cannot be used exactly where a variable holds no text, or where that for the
/// number of files at once holds no number.
pub proof fn law_environment_errors(values: EnvironmentValuesView)
    ensures
        ({
            let no_text = values.profile is NotUnicode || values.codec is NotUnicode
                || values.bitrate is NotUnicode || values.channels is NotUnicode
                || values.mode is NotUnicode || values.jobs is NotUnicode
                || values.storage_profile is NotUnicode || values.color is NotUnicode;
            let no_number = values.jobs is Text && number::read_unsigned(
                values.jobs->Text_0,
                usize::MAX as int,
            ) is None;
            &&& config::environment_fault(values) is Some <==> no_text || no_number
            &&& !no_number && no_text ==> config::environment_fault(values)->0 is InvalidEnvironment
            &&& no_number && !no_text ==> config::environment_fault(values)->0 is InvalidValue
        }),
{
}

/// The variable that the failure names holds no text.
pub proof fn law_named_variable_is_at_fault(values: EnvironmentValuesView, name: Seq<char>)
    requires
        config::environment_fault(values) == Some(ConfigErrorView::InvalidEnvironment { name }),
    ensures
        values.profile is NotUnicode && name == "SONICMUX_PROFILE"@ || values.codec is NotUnicode
            && name == "SONICMUX_CODEC"@ || values.bitrate is NotUnicode && name
            == "SONICMUX_BITRATE"@ || values.channels is NotUnicode && name == "SONICMUX_CHANNELS"@
            || values.mode is NotUnicode && name == "SONICMUX_MODE"@ || values.jobs is NotUnicode
            && name == "SONICMUX_JOBS"@ || values.storage_profile is NotUnicode && name
            == "SONICMUX_STORAGE_PROFILE"@ || values.color is NotUnicode && name
            == "SONICMUX_COLOR"@,
{
}

/// Merged settings can be used exactly where their profile is known, their target is one, their mode,
/// use of color and kind of storage are one of the names for it, and from 1 to 64 files are worked on
/// at once.
pub proof fn law_usable_settings(settings: EffectiveConfigView)
    ensures
        config::config_fault(settings) is None <==> {
            let color = settings.color.value;
            let storage = settings.storage_profile.value;
            let mode = settings.mode.value;
            &&& config::policy_named(settings.profile.value, settings.custom_profiles) is Ok
            &&& config::target_of(
                settings.codec.value,
                settings.bitrate.value,
                settings.channels.value,
            ) is Ok
            &&& mode == "add"@ || mode == "replace"@ || mode == "only-new"@
            &&& color == "auto"@ || color == "always"@ || color == "never"@
            &&& 1 <= settings.jobs.value <= 64
            &&& storage == "hdd"@ || storage == "balanced"@ || storage == "nvme"@
        },
{
}

/// Each output mode has one name.
pub proof fn law_mode_names(value: Seq<char>)
    ensures
        config::mode_value(value) == Some(OutputMode::Add) <==> value == "add"@,
        config::mode_value(value) == Some(OutputMode::Replace) <==> value == "replace"@,
        config::mode_value(value) == Some(OutputMode::OnlyNew) <==> value == "only-new"@,
        config::mode_value(value) is Some <==> value == "add"@ || value == "replace"@ || value
            == "only-new"@,
{
    reveal_strlit("add");
    reveal_strlit("replace");
    reveal_strlit("only-new");
    assert("add"@.len() == 3 && "replace"@.len() == 7 && "only-new"@.len() == 8);
}

/// Each layout has one name.
pub proof fn law_layout_names(value: Seq<char>)
    ensures
        config::layout_value(value) == Some(TargetLayout::KeepUpTo51) <==> value
            == "keep-up-to-5.1"@,
        config::layout_value(value) == Some(TargetLayout::Stereo) <==> value == "stereo"@,
        config::layout_value(value) == Some(TargetLayout::Surround51) <==> value == "5.1"@,
        config::layout_value(value) is Some <==> value == "keep-up-to-5.1"@ || value == "stereo"@
            || value == "5.1"@,
{
    reveal_strlit("keep-up-to-5.1");
    reveal_strlit("stereo");
    reveal_strlit("5.1");
    assert("keep-up-to-5.1"@.len() == 14 && "stereo"@.len() == 6 && "5.1"@.len() == 3);
}

/// Digits have no white space around them and no capitals.
proof fn lemma_plain(s: Seq<char>)
    requires
        s.len() > 0,
        !text::is_space(s[0]),
        !text::is_space(s.last()),
    ensures
        text::trim(s) == s,
{
}

/// Digits alone are bits per second, digits before a `k` are thousands and digits before an `m`
/// millions of them, in either case, as far as the number fits.
pub proof fn law_bitrate_suffixes(digits: Seq<char>)
    requires
        digits.len() > 0,
        text::all_digits(digits),
    ensures
        ({
            let n = number::number(digits);
            let most: int = 0xffff_ffff_ffff_ffff;
            &&& n <= most ==> config::bitrate_value(digits) == Some(n)
            &&& n > most ==> config::bitrate_value(digits) is None
            &&& n * 1_000 <= most ==> config::bitrate_value(digits.push('k')) == Some(n * 1_000)
                && config::bitrate_value(digits.push('K')) == Some(n * 1_000)
            &&& n * 1_000 > most ==> config::bitrate_value(digits.push('k')) is None
                && config::bitrate_value(digits.push('K')) is None
            &&& n * 1_000_000 <= most ==> config::bitrate_value(digits.push('m')) == Some(
                n * 1_000_000,
            ) && config::bitrate_value(digits.push('M')) == Some(n * 1_000_000)
            &&& n * 1_000_000 > most ==> config::bitrate_value(digits.push('m')) is None
                && config::bitrate_value(digits.push('M')) is None
        }),
{
    number::lemma_number_nonnegative(digits);
    assert(text::is_digit(digits[0]));
    assert(text::is_digit(digits[digits.len() - 1]));
    lemma_plain(digits);
    assert(text::lower(digits) =~= digits) by {
        assert forall|i: int| 0 <= i < digits.len() implies text::lower(digits)[i] == digits[i] by {
            assert(text::is_digit(digits[i]));
        }
    }
    lemma_suffix(digits, 'k', 'k');
    lemma_suffix(digits, 'K', 'k');
    lemma_suffix(digits, 'm', 'm');
    lemma_suffix(digits, 'M', 'm');
}

proof fn lemma_suffix(digits: Seq<char>, suffix: char, small: char)
    requires
        digits.len() > 0,
        text::all_digits(digits),
        text::lower_char(suffix) == small,
        small == 'k' || small == 'm',
        suffix == 'k' || suffix == 'K' || suffix == 'm' || suffix == 'M',
    ensures
        text::lower(text::trim(digits.push(suffix))) == digits.push(small),
        digits.push(small).drop_last() == digits,
        digits.push(small).last() == small,
{
    let s = digits.push(suffix);
    assert(text::is_digit(digits[0]));
    lemma_plain(s);
    assert forall|i: int| 0 <= i < s.len() implies text::lower(s)[i] == digits.push(small)[i] by {
        if i < digits.len() {
            assert(text::is_digit(digits[i]));
        }
    }
    assert(text::lower(s) =~= digits.push(small));
    assert(digits.push(small).drop_last() =~= digits);
}

/// Only digits, behind an optional plus and before an optional suffix, are a bitrate.
pub proof fn law_bitrates_are_digits(value: Seq<char>)
    requires
        config::bitrate_value(value) is Some,
    ensures
        ({
            let s = text::trim(value);
            let tail = s.len() > 0 && (s.last() == 'k' || s.last() == 'K' || s.last() == 'm'
                || s.last() == 'M');
            let front = if tail {
                s.drop_last()
            } else {
                s
            };
            let digits = if front.len() > 0 && front[0] == '+' {
                front.drop_first()
            } else {
                front
            };
            digits.len() > 0 && text::all_digits(digits)
        }),
{
    let s = text::trim(value);
    let low = text::lower(s);
    let tail = s.len() > 0 && (s.last() == 'k' || s.last() == 'K' || s.last() == 'm' || s.last()
        == 'M');
    let front = if tail {
        s.drop_last()
    } else {
        s
    };
    let low_front = if tail {
        low.drop_last()
    } else {
        low
    };
    assert(s.len() > 0 ==> low.last() == text::lower_char(s.last()));
    assert(low_front =~= text::lower(front));
    let digits = if front.len() > 0 && front[0] == '+' {
        front.drop_first()
    } else {
        front
    };
    let low_digits = if low_front.len() > 0 && low_front[0] == '+' {
        low_front.drop_first()
    } else {
        low_front
    };
    assert(front.len() > 0 ==> low_front[0] == text::lower_char(front[0]));
    assert(low_digits =~= text::lower(digits));
    assert forall|i: int| 0 <= i < digits.len() implies text::is_digit(#[trigger] digits[i]) by {
        assert(text::is_digit(low_digits[i]));
        assert(low_digits[i] == text::lower_char(digits[i]));
    }
}

/// Whether AC-3 has a bitrate.
pub open spec fn is_ac3_rate(n: int) -> bool {
    ||| 32_000 <= n <= 64_000 && n % 8_000 == 0
    ||| 64_000 < n <= 128_000 && n % 16_000 == 0
    ||| 128_000 < n <= 256_000 && n % 32_000 == 0
    ||| n == 320_000
    ||| 320_000 < n <= 640_000 && n % 64_000 == 0
}

/// A target is made exactly of a bitrate and a layout that can be read and a codec that has the
/// bitrate: AC-3 one of its standard bitrates, E-AC-3 from 32 kilobits to 6144, AAC from 8 to 1024.
/// It is of that codec, bitrate and layout.
pub proof fn law_targets(codec: Seq<char>, bitrate: Seq<char>, channels: Seq<char>)
    ensures
        ({
            let rate = config::bitrate_value(bitrate);
            let layout = config::layout_value(channels);
            let n = rate->0;
            let target = config::target_of(codec, bitrate, channels);
            let read = rate is Some && layout is Some;
            &&& read && codec == "ac3"@ && is_ac3_rate(n) <==> target is Ok && target->Ok_0 is Ac3
            &&& read && codec == "eac3"@ && 32_000 <= n <= 6_144_000 <==> target is Ok
                && target->Ok_0 is Eac3
            &&& read && codec == "aac"@ && 8_000 <= n <= 1_024_000 <==> target is Ok
                && target->Ok_0 is Aac
            &&& target is Ok ==> match target->Ok_0 {
                TargetView::Ac3 { bitrate: b, layout: l } => b == n && Some(l) == layout,
                TargetView::Eac3 { bitrate: b, layout: l } => b == n && Some(l) == layout,
                TargetView::Aac { bitrate: b, layout: l } => b == n && Some(l) == layout,
            }
        }),
{
    reveal_strlit("ac3");
    reveal_strlit("eac3");
    reveal_strlit("aac");
    assert("ac3"@[1] == 'c' && "aac"@[1] == 'a' && "eac3"@.len() == 4 && "ac3"@.len() == 3
        && "aac"@.len() == 3);
    if config::bitrate_value(bitrate) is Some {
        let n = config::bitrate_value(bitrate)->0;
        lemma_bitrate_range(bitrate);
        lemma_ac3_rates(n as u64);
    }
}

proof fn lemma_bitrate_range(value: Seq<char>)
    requires
        config::bitrate_value(value) is Some,
    ensures
        0 <= config::bitrate_value(value)->0 <= u64::MAX,
{
    let s = text::lower(text::trim(value));
    let digits = if s.len() > 0 && (s.last() == 'k' || s.last() == 'm') {
        s.drop_last()
    } else {
        s
    };
    let plain = if digits.len() > 0 && digits[0] == '+' {
        digits.drop_first()
    } else {
        digits
    };
    number::lemma_number_nonnegative(plain);
}

proof fn lemma_ac3_rates(n: u64)
    ensures
        crate::target::ac3_bitrates().contains(n) <==> is_ac3_rate(n as int),
{
    let all = crate::target::ac3_bitrates();
    assert(all.len() == 19);
    assert(all[0] == 32_000 && all[1] == 40_000 && all[2] == 48_000 && all[3] == 56_000 && all[4]
        == 64_000 && all[5] == 80_000 && all[6] == 96_000 && all[7] == 112_000 && all[8] == 128_000
        && all[9] == 160_000 && all[10] == 192_000 && all[11] == 224_000 && all[12] == 256_000
        && all[13] == 320_000 && all[14] == 384_000 && all[15] == 448_000 && all[16] == 512_000
        && all[17] == 576_000 && all[18] == 640_000);
    if all.contains(n) {
        let i = choose|i: int| 0 <= i < all.len() && all[i] == n;
        assert(is_ac3_rate(all[i] as int));
    }
}

proof fn lemma_family_words()
    ensures
        "ac3"@.len() == 3 && "ac3"@[0] == 'a' && "ac3"@[1] == 'c',
        "eac3"@.len() == 4 && "eac3"@[0] == 'e',
        "aac"@.len() == 3 && "aac"@[0] == 'a' && "aac"@[1] == 'a',
        "mp3"@.len() == 3 && "mp3"@[0] == 'm',
        "dts"@.len() == 3 && "dts"@[0] == 'd',
        "truehd"@.len() == 6 && "truehd"@[0] == 't',
        "flac"@.len() == 4 && "flac"@[0] == 'f',
        "opus"@.len() == 4 && "opus"@[0] == 'o',
        "vorbis"@.len() == 6 && "vorbis"@[0] == 'v',
        "pcm"@.len() == 3 && "pcm"@[0] == 'p',
{
    reveal_strlit("ac3");
    reveal_strlit("eac3");
    reveal_strlit("aac");
    reveal_strlit("mp3");
    reveal_strlit("dts");
    reveal_strlit("truehd");
    reveal_strlit("flac");
    reveal_strlit("opus");
    reveal_strlit("vorbis");
    reveal_strlit("pcm");
}

/// Each codec family that a profile can speak of has one name.
pub proof fn law_family_names(value: Seq<char>)
    ensures
        config::family_value(value) == Some(AudioCodecFamily::Ac3) <==> value == "ac3"@,
        config::family_value(value) == Some(AudioCodecFamily::Eac3) <==> value == "eac3"@,
        config::family_value(value) == Some(AudioCodecFamily::Aac) <==> value == "aac"@,
        config::family_value(value) == Some(AudioCodecFamily::Mp3) <==> value == "mp3"@,
        config::family_value(value) == Some(AudioCodecFamily::Dts) <==> value == "dts"@,
        config::family_value(value) == Some(AudioCodecFamily::TrueHd) <==> value == "truehd"@,
        config::family_value(value) == Some(AudioCodecFamily::Flac) <==> value == "flac"@,
        config::family_value(value) == Some(AudioCodecFamily::Opus) <==> value == "opus"@,
        config::family_value(value) == Some(AudioCodecFamily::Vorbis) <==> value == "vorbis"@,
        config::family_value(value) == Some(AudioCodecFamily::Pcm) <==> value == "pcm"@,
        config::family_value(value) != Some(AudioCodecFamily::Other),
{
    lemma_family_words();
}

/// A profile is known exactly where it is built in or the user made it.
pub proof fn law_known_profiles(name: Seq<char>, custom: Map<Seq<char>, ProfileFileView>)
    ensures
        ({
            let built_in = name == "generic-tv"@ || name == "samsung"@ || name == "lg"@ || name
                == "dlna"@;
            let policy = config::policy_named(name, custom);
            &&& policy is Err && policy->Err_0 is UnknownProfile <==> !built_in
                && !custom.dom().contains(name)
            &&& built_in && !custom.dom().contains(name) ==> policy is Ok
        }),
{
    if custom.dom().contains(name) {
        lemma_rule_errors(
            PolicyView {
                unknown_codec: config::behavior_of(custom[name].unknown_codec),
                ..config::base_policy(
                    match config::builtin_profile(name) {
                        Some(p) => p,
                        None => ProfileNameView::Custom(name),
                    },
                )
            },
            table::listing(custom[name].codecs),
        );
    }
}

proof fn lemma_rule_errors(start: PolicyView, rules: Seq<(Seq<char>, CodecRuleFileView)>)
    ensures
        config::with_rules(start, rules) matches Err(e) ==> !(e is UnknownProfile),
    decreases rules.len(),
{
    if rules.len() > 0 {
        lemma_rule_errors(start, rules.drop_last());
    }
}

/// The policy of a profile that the user says nothing of accepts AC-3 of at most six channels and AAC
/// and MP3 of at most two, in any layout, and refuses unknown codecs. All but that of generic
/// television are deliberately conservative.
pub proof fn law_built_in_policies(name: Seq<char>, custom: Map<Seq<char>, ProfileFileView>)
    requires
        !custom.dom().contains(name),
        config::policy_named(name, custom) is Ok,
    ensures
        ({
            let policy = config::policy_named(name, custom)->Ok_0;
            &&& name == "generic-tv"@ <==> policy.name is GenericTv
            &&& name == "samsung"@ <==> policy.name is Samsung
            &&& name == "lg"@ <==> policy.name is Lg
            &&& name == "dlna"@ <==> policy.name is Dlna
            &&& policy.conservative_baseline <==> name != "generic-tv"@
            &&& policy.unknown_codec is Reject
            &&& forall|family: AudioCodecFamily| #[trigger]
                policy.rules.dom().contains(family) <==> family is Ac3 || family is Aac
                    || family is Mp3
            &&& policy.rules[AudioCodecFamily::Ac3].maximum_channels == Some(6u16)
            &&& policy.rules[AudioCodecFamily::Aac].maximum_channels == Some(2u16)
            &&& policy.rules[AudioCodecFamily::Mp3].maximum_channels == Some(2u16)
            &&& policy.rules[AudioCodecFamily::Ac3].allowed_layouts is None
            &&& policy.rules[AudioCodecFamily::Aac].allowed_layouts is None
            &&& policy.rules[AudioCodecFamily::Mp3].allowed_layouts is None
        }),
{
    reveal_strlit("generic-tv");
    reveal_strlit("samsung");
    reveal_strlit("lg");
    reveal_strlit("dlna");
    assert("generic-tv"@.len() == 10 && "samsung"@.len() == 7 && "lg"@.len() == 2 && "dlna"@.len()
        == 4);
}

proof fn lemma_with_rules(start: PolicyView, rules: Seq<(Seq<char>, CodecRuleFileView)>)
    requires
        table::ascending(rules),
        config::with_rules(start, rules) is Ok,
    ensures
        ({
            let out = config::with_rules(start, rules)->Ok_0;
            &&& out.name == start.name
            &&& out.description == start.description
            &&& out.conservative_baseline == start.conservative_baseline
            &&& out.unknown_codec == start.unknown_codec
            &&& forall|i: int|
                0 <= i < rules.len() ==> rule_given(out, (#[trigger] rules[i]).0, rules[i].1)
            &&& forall|family: AudioCodecFamily|
                (forall|i: int|
                    0 <= i < rules.len() ==> config::family_value((#[trigger] rules[i]).0) != Some(
                        family,
                    )) ==> (#[trigger] out.rules.dom().contains(family)
                    <==> start.rules.dom().contains(family)) && out.rules[family]
                    == start.rules[family]
        }),
    decreases rules.len(),
{
    if rules.len() > 0 {
        let rest = rules.drop_last();
        let last = rules.len() - 1;
        assert forall|i: int, j: int| 0 <= i < j < rest.len() implies table::precedes(
            #[trigger] rest[i].0,
            #[trigger] rest[j].0,
        ) by {
            assert(table::precedes(rules[i].0, rules[j].0));
        }
        lemma_with_rules(start, rest);
        let before = config::with_rules(start, rest)->Ok_0;
        let out = config::with_rules(start, rules)->Ok_0;
        let family = config::family_value(rules[last].0)->0;
        lemma_family_words();
        assert forall|i: int| 0 <= i < rules.len() implies rule_given(
            out,
            (#[trigger] rules[i]).0,
            rules[i].1,
        ) by {
            if i < last {
                assert(rest[i] == rules[i]);
                assert(rule_given(before, rest[i].0, rest[i].1));
                assert(table::precedes(rules[i].0, rules[last].0));
                table::lemma_precedes_irreflexive(rules[i].0);
            }
        }
        assert forall|f: AudioCodecFamily|
            (forall|i: int|
                0 <= i < rules.len() ==> config::family_value((#[trigger] rules[i]).0) != Some(
                    f,
                )) implies (#[trigger] out.rules.dom().contains(f) <==> start.rules.dom().contains(f))
            && out.rules[f] == start.rules[f] by {
            assert(config::family_value(rules[last].0) != Some(f));
            assert forall|i: int| 0 <= i < rest.len() implies config::family_value(
                (#[trigger] rest[i]).0,
            ) != Some(f) by {
                assert(rest[i] == rules[i]);
            }
            assert(before.rules.dom().contains(f) <==> start.rules.dom().contains(f));
        }
    }
}

/// Whether a policy has a rule of the user for the family that is named.
pub open spec fn rule_given(
    policy: PolicyView,
    name: Seq<char>,
    rule: CodecRuleFileView,
) -> bool {
    &&& config::family_value(name) is Some
    &&& policy.rules.dom().contains(config::family_value(name)->0)
    &&& ({
        let has = policy.rules[config::family_value(name)->0];
        &&& has.maximum_channels == rule.maximum_channels
        &&& has.allowed_layouts is Some <==> rule.allowed_layouts is Some
        &&& rule.allowed_layouts matches Some(layouts) ==> forall|layout: Seq<char>|
            has.allowed_layouts->0.contains(layout) <==> layouts.contains(layout)
    })
}

/// A profile of the user has the rules that it gives in place of those that are built in, and keeps
/// the others. It says what to do with unknown codecs.
pub proof fn law_custom_policies(
    name: Seq<char>,
    custom: Map<Seq<char>, ProfileFileView>,
    key: Seq<char>,
    family: AudioCodecFamily,
)
    requires
        custom.dom().contains(name),
        table::is_listed(custom[name].codecs),
        config::policy_named(name, custom) is Ok,
    ensures
        ({
            let policy = config::policy_named(name, custom)->Ok_0;
            let given = custom[name].codecs;
            &&& policy.unknown_codec is Reject <==> custom[name].unknown_codec
                == UnknownCodecFile::Reject
            &&& policy.name is Custom ==> policy.name == ProfileNameView::Custom(name)
            &&& given.dom().contains(key) ==> rule_given(policy, key, given[key])
            &&& (forall|k: Seq<char>| #[trigger]
                given.dom().contains(k) ==> config::family_value(k) != Some(family)) ==> (
            policy.rules.dom().contains(family) <==> family is Ac3 || family is Aac
                || family is Mp3)
        }),
{
    let p = match config::builtin_profile(name) {
        Some(p) => p,
        None => ProfileNameView::Custom(name),
    };
    let start = PolicyView {
        unknown_codec: config::behavior_of(custom[name].unknown_codec),
        ..config::base_policy(p)
    };
    let pairs = table::listing(custom[name].codecs);
    lemma_with_rules(start, pairs);
    let given = custom[name].codecs;
    if given.dom().contains(key) {
        let i = table::key_index(pairs, key);
        assert(pairs[i].0 == key);
        table::lemma_key_index(pairs, i);
    }
    if forall|k: Seq<char>| #[trigger]
        given.dom().contains(k) ==> config::family_value(k) != Some(family) {
        assert forall|i: int| 0 <= i < pairs.len() implies config::family_value(
            (#[trigger] pairs[i]).0,
        ) != Some(family) by {
            table::lemma_key_index(pairs, i);
            assert(given.dom().contains(pairs[i].0));
        }
    }
}

/// A configuration file is valid only with version 1 or none.
pub proof fn law_file_version(file: FileConfigView)
    ensures
        file.version is Some && file.version->0 != 1 <==> config::file_fault(file) is Some
            && config::file_fault(file)->0 is UnsupportedVersion,
{
    let profiles = table::listing(file.profiles);
    lemma_name_errors(profiles);
    lemma_profile_errors(profiles);
}

proof fn lemma_name_errors(profiles: Seq<(Seq<char>, ProfileFileView)>)
    ensures
        config::names_fault(profiles) matches Some(e) ==> !(e is UnsupportedVersion),
    decreases profiles.len(),
{
    if profiles.len() > 0 {
        lemma_name_errors(profiles.drop_last());
    }
}

proof fn lemma_rules_errors(rules: Seq<(Seq<char>, CodecRuleFileView)>)
    ensures
        config::rules_fault(rules) matches Some(e) ==> e is InvalidValue,
    decreases rules.len(),
{
    if rules.len() > 0 {
        lemma_rules_errors(rules.drop_last());
    }
}

proof fn lemma_profile_errors(profiles: Seq<(Seq<char>, ProfileFileView)>)
    ensures
        config::profiles_fault(profiles) matches Some(e) ==> e is InvalidValue,
    decreases profiles.len(),
{
    if profiles.len() > 0 {
        lemma_profile_errors(profiles.drop_last());
        lemma_rules_errors(table::listing(profiles.last().1.codecs));
    }
}

/// Every profile of a valid configuration file has a name that is neither blank nor built in, and
/// each of its rules speaks of a known family, of at least one channel and of layouts with names.
pub proof fn law_valid_profiles(file: FileConfigView, name: Seq<char>, family: Seq<char>)
    requires
        table::is_listed(file.profiles),
        config::file_fault(file) is None,
        file.profiles.dom().contains(name),
        table::is_listed(file.profiles[name].codecs),
    ensures
        text::trim(name).len() > 0,
        name != "generic-tv"@ && name != "samsung"@ && name != "lg"@ && name != "dlna"@,
        file.profiles[name].codecs.dom().contains(family) ==> {
            let rule = file.profiles[name].codecs[family];
            &&& config::family_value(family) is Some
            &&& rule.maximum_channels != Some(0u16)
            &&& rule.allowed_layouts matches Some(layouts) ==> layouts.len() > 0 && forall|i: int|
                0 <= i < layouts.len() ==> text::trim(#[trigger] layouts[i]).len() > 0
        },
{
    let profiles = table::listing(file.profiles);
    let i = table::key_index(profiles, name);
    assert(profiles[i].0 == name);
    table::lemma_key_index(profiles, i);
    lemma_name_valid(profiles, i);
    lemma_profile_valid(profiles, i);
    let rules = table::listing(file.profiles[name].codecs);
    if file.profiles[name].codecs.dom().contains(family) {
        let k = table::key_index(rules, family);
        assert(rules[k].0 == family);
        table::lemma_key_index(rules, k);
        lemma_rule_valid(rules, k);
    }
}

proof fn lemma_name_valid(profiles: Seq<(Seq<char>, ProfileFileView)>, i: int)
    requires
        config::names_fault(profiles) is None,
        0 <= i < profiles.len(),
    ensures
        config::name_fault(profiles[i].0) is None,
    decreases profiles.len(),
{
    if i < profiles.len() - 1 {
        lemma_name_valid(profiles.drop_last(), i);
    }
}

proof fn lemma_profile_valid(profiles: Seq<(Seq<char>, ProfileFileView)>, i: int)
    requires
        config::profiles_fault(profiles) is None,
        0 <= i < profiles.len(),
    ensures
        config::rules_fault(table::listing(profiles[i].1.codecs)) is None,
    decreases profiles.len(),
{
    if i < profiles.len() - 1 {
        lemma_profile_valid(profiles.drop_last(), i);
    }
}

proof fn lemma_rule_valid(rules: Seq<(Seq<char>, CodecRuleFileView)>, i: int)
    requires
        config::rules_fault(rules) is None,
        0 <= i < rules.len(),
    ensures
        config::rule_fault(rules[i].0, rules[i].1) is None,
    decreases rules.len(),
{
    if i < rules.len() - 1 {
        lemma_rule_valid(rules.drop_last(), i);
    }
}

/// A configuration file is read where it is a regular file of at most one mebibyte. One that nobody
/// asked for may be absent; everything else is an error.
pub proof fn law_config_file_is_read(path: ConfigPathView, entry: Result<EntryFacts, IoErrorView>)
    ensures
        ({
            let r = config::readable(path, entry);
            let regular = entry is Ok && entry->Ok_0.file && !entry->Ok_0.symlink;
            let absent = entry is Err && entry->Err_0.kind == IoErrorKind::NotFound;
            &&& r == Ok::<bool, ConfigErrorView>(true) <==> regular && entry->Ok_0.length
                <= 1_048_576
            &&& r == Ok::<bool, ConfigErrorView>(false) <==> absent && !path.required
            &&& r is Err && r->Err_0 is NotRegular <==> entry is Ok && !regular
            &&& r is Err && r->Err_0 is TooLarge <==> regular && entry->Ok_0.length > 1_048_576
            &&& r is Err && r->Err_0 is Read <==> entry is Err && !(absent && !path.required)
        }),
{
}

} // verus!
