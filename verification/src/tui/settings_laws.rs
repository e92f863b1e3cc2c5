//! What holds of the settings of the terminal interface.
use vstd::prelude::*;

use crate::number;
use crate::runtime::config::EffectiveConfigView;
use crate::runtime::prepare::FailurePolicy;
use crate::session;
use crate::tui::settings;
use crate::tui::settings::UiSettingsView;

verus! {

/// Whether these three values follow one another, round and round.
pub open spec fn goes_round(values: Seq<Seq<char>>, a: Seq<char>, b: Seq<char>, c: Seq<char>) -> bool {
    &&& values.len() == 3
    &&& settings::cycled_value(a, values, false) == b
    &&& settings::cycled_value(b, values, false) == c
    &&& settings::cycled_value(c, values, false) == a
    &&& settings::cycled_value(a, values, true) == c
    &&& settings::cycled_value(b, values, true) == a
    &&& settings::cycled_value(c, values, true) == b
}

proof fn lemma_goes_round(a: Seq<char>, b: Seq<char>, c: Seq<char>)
    requires
        a != b,
        b != c,
        a != c,
    ensures
        goes_round(seq![a, b, c], a, b, c),
{
}

/// The codecs, layouts, modes and kinds of storage that can be chosen, each in its order.
pub proof fn law_choices_go_round()
    ensures
        goes_round(settings::codecs(), "ac3"@, "eac3"@, "aac"@),
        goes_round(settings::layouts(), "keep-up-to-5.1"@, "stereo"@, "5.1"@),
        goes_round(settings::modes(), "add"@, "replace"@, "only-new"@),
        goes_round(settings::storage_kinds(), "hdd"@, "balanced"@, "nvme"@),
{
    reveal_strlit("ac3");
    reveal_strlit("eac3");
    reveal_strlit("aac");
    assert("ac3"@[2] == '3' && "aac"@[2] == 'c');
    assert("ac3"@.len() == 3 && "eac3"@.len() == 4 && "aac"@.len() == 3);
    lemma_goes_round("ac3"@, "eac3"@, "aac"@);
    reveal_strlit("keep-up-to-5.1");
    reveal_strlit("stereo");
    reveal_strlit("5.1");
    assert("keep-up-to-5.1"@.len() == 14 && "stereo"@.len() == 6 && "5.1"@.len() == 3);
    lemma_goes_round("keep-up-to-5.1"@, "stereo"@, "5.1"@);
    reveal_strlit("add");
    reveal_strlit("replace");
    reveal_strlit("only-new");
    assert("add"@.len() == 3 && "replace"@.len() == 7 && "only-new"@.len() == 8);
    lemma_goes_round("add"@, "replace"@, "only-new"@);
    reveal_strlit("hdd");
    reveal_strlit("balanced");
    reveal_strlit("nvme");
    assert("hdd"@.len() == 3 && "balanced"@.len() == 8 && "nvme"@.len() == 4);
    lemma_goes_round("hdd"@, "balanced"@, "nvme"@);
}

/// The bitrates that can be chosen for a codec, and the one that it begins with.
pub proof fn law_bitrate_choices(codec: Seq<char>)
    ensures
        settings::bitrates("ac3"@) == seq!["384k"@, "448k"@, "640k"@],
        settings::bitrates("eac3"@) == seq!["384k"@, "640k"@, "1024k"@],
        settings::bitrates("aac"@) == seq!["192k"@, "256k"@, "384k"@],
        settings::usual_bitrate("ac3"@) == "640k"@,
        settings::usual_bitrate("eac3"@) == "640k"@,
        settings::usual_bitrate("aac"@) == "384k"@,
{
    reveal_strlit("ac3");
    reveal_strlit("eac3");
    reveal_strlit("aac");
    assert("ac3"@[2] == '3' && "aac"@[2] == 'c');
    assert("ac3"@.len() == 3 && "eac3"@.len() == 4 && "aac"@.len() == 3);
}

/// A change concerns the field that is selected. Beside it only the codec brings its usual bitrate,
/// and storage that seeks slowly brings work one by one.
pub proof fn law_changes_concern_the_selected_field(s: UiSettingsView, back: bool)
    ensures
        ({
            let next = s.changed(back);
            let field = s.selected_field;
            &&& next.profiles == s.profiles && next.selected_field == s.selected_field
                && next.output_directory == s.output_directory
            &&& field != 0 ==> next.profile == s.profile
            &&& field == 1 <==> next.action_remux != s.action_remux
            &&& field != 2 ==> next.codec == s.codec
            &&& field == 2 ==> next.codec == settings::cycled_value(
                s.codec,
                settings::codecs(),
                back,
            ) && next.bitrate == settings::usual_bitrate(next.codec)
            &&& field == 3 ==> next.bitrate == settings::cycled_value(
                s.bitrate,
                settings::bitrates(s.codec),
                back,
            )
            &&& field != 2 && field != 3 ==> next.bitrate == s.bitrate
            &&& field != 4 ==> next.channels == s.channels
            &&& field == 4 ==> next.channels == settings::cycled_value(
                s.channels,
                settings::layouts(),
                back,
            )
            &&& field != 5 ==> next.mode == s.mode
            &&& field == 5 ==> next.mode == settings::cycled_value(s.mode, settings::modes(), back)
            &&& field == 6 && back && 2 <= s.jobs ==> next.jobs == s.jobs - 1
            &&& field == 6 && !back && s.jobs < 64 ==> next.jobs == s.jobs + 1
            &&& field == 6 && back && s.jobs == 1 ==> next.jobs == 1
            &&& field == 6 && !back && s.jobs == 64 ==> next.jobs == 64
            &&& field != 6 && field != 7 ==> next.jobs == s.jobs
            &&& field != 7 ==> next.storage_profile == s.storage_profile
            &&& field == 7 ==> next.storage_profile == settings::cycled_value(
                s.storage_profile,
                settings::storage_kinds(),
                back,
            )
            &&& field == 7 && next.storage_profile == "hdd"@ ==> next.jobs == 1
            &&& field == 7 && next.storage_profile != "hdd"@ ==> next.jobs == s.jobs
            &&& field == 8 <==> next.failure_policy != s.failure_policy
            &&& field >= 9 <==> next.dry_run != s.dry_run
        }),
{
}

/// Profiles go round as well: after the last comes the first.
pub proof fn law_profiles_go_round(s: UiSettingsView)
    requires
        s.selected_field == 0,
        s.profile < s.profiles.len() <= usize::MAX,
    ensures
        ({
            let last = s.profiles.len() - 1;
            &&& s.profile < last ==> s.changed(false).profile == s.profile + 1
            &&& s.profile == last ==> s.changed(false).profile == 0
            &&& s.profile > 0 ==> s.changed(true).profile == s.profile - 1
            &&& s.profile == 0 ==> s.changed(true).profile == last
        }),
{
    let n = s.profiles.len() as int;
    let p = s.profile as int;
    if p < n - 1 {
        vstd::arithmetic::div_mod::lemma_small_mod((p + 1) as nat, n as nat);
    } else {
        vstd::arithmetic::div_mod::lemma_mod_self_0(n);
    }
}

/// A selection in a list moves by one and stays within the list.
pub proof fn law_selections_move_by_one(current: int, length: int)
    requires
        0 <= current < length,
    ensures
        current > 0 ==> settings::moved(current, length, true) == current - 1,
        settings::moved(0, length, true) == 0,
        current < length - 1 ==> settings::moved(current, length, false) == current + 1,
        settings::moved(length - 1, length, false) == length - 1,
        settings::moved(current, 0, true) == 0 && settings::moved(current, 0, false) == 0,
{
}

/// Every field is shown with its name and its value.
pub proof fn law_fields_are_shown(s: UiSettingsView)
    ensures
        s.profile < s.profiles.len() ==> s.field(0) == (
            "Profile"@,
            s.profiles[s.profile as int].name,
        ),
        s.action_remux ==> s.field(1) == ("Action"@, "remux"@),
        !s.action_remux ==> s.field(1) == ("Action"@, "convert"@),
        s.field(2) == ("Codec"@, s.codec),
        s.field(3) == ("Bitrate"@, s.bitrate),
        s.field(4) == ("Channels"@, s.channels),
        s.field(5) == ("Mode"@, s.mode),
        s.field(6) == ("Jobs"@, number::decimal(s.jobs as int)),
        s.field(7) == ("Storage"@, s.storage_profile),
        s.field(8) == ("Failures"@, s.failure_policy.label()),
        s.dry_run ==> s.field(9) == ("Dry run"@, "yes"@),
        !s.dry_run ==> s.field(9) == ("Dry run"@, "no"@),
{
}

/// The settings say how files are planned.
pub proof fn law_terminal_settings_plan(s: UiSettingsView)
    ensures
        s.profile < s.profiles.len() ==> s.planning().policy
            == s.profiles[s.profile as int].policy,
        s.planning().target == session::target_of(s.codec, s.bitrate, s.channels),
        s.planning().mode == session::mode_of(s.mode),
        s.planning().remux == s.action_remux,
        s.planning().output_directory == s.output_directory,
{
}

/// The interface begins with the settings that are in force, to convert and to go on after failures.
pub proof fn law_terminal_settings_begin(
    config: EffectiveConfigView,
    dry_run: bool,
    directory: Option<Seq<u8>>,
)
    requires
        settings::initial_settings(config, dry_run, directory) is Ok,
    ensures
        ({
            let s = settings::initial_settings(config, dry_run, directory)->Ok_0;
            &&& !s.action_remux
            &&& s.codec == config.codec.value
            &&& s.bitrate == config.bitrate.value
            &&& s.channels == config.channels.value
            &&& s.mode == config.mode.value
            &&& s.jobs == config.jobs.value
            &&& s.storage_profile == config.storage_profile.value
            &&& s.failure_policy == FailurePolicy::Continue
            &&& s.dry_run == dry_run
            &&& s.output_directory == directory
            &&& s.selected_field == 0
        }),
{
}

} // verus!
