//! What holds of the settings of a session and of what it shows.
use vstd::prelude::*;
use vstd::utf8::*;

use crate::media::MediaInfoView;
use crate::path;
use crate::path_laws;
use crate::plan;
use crate::plan::{ActionView, JobPlanView, PlanOutcomeView, PlanningView, SelectorView};
use crate::runtime::config;
use crate::runtime::config::{EffectiveConfigView, ProfileFileView};
use crate::session;
use crate::session::{PlanSettingsView, PlanTroubleView, ProfileChoiceView};
use crate::table;
use crate::text;

verus! {

proof fn lemma_tail()
    ensures
        ({
            let tail = encode_utf8(".sonicmux.mkv"@);
            &&& tail.len() == 13
            &&& tail[0] == 46
            &&& tail[9] == 46 && tail[10] == 109 && tail[11] == 107 && tail[12] == 118
            &&& !tail.contains(47)
        }),
{
    reveal_strlit(".sonicmux.mkv");
    let t = ".sonicmux.mkv"@;
    assert(t.len() == 13);
    assert(t[0] == '.' && t[1] == 's' && t[2] == 'o' && t[3] == 'n' && t[4] == 'i' && t[5] == 'c'
        && t[6] == 'm' && t[7] == 'u' && t[8] == 'x' && t[9] == '.' && t[10] == 'm' && t[11] == 'k'
        && t[12] == 'v');
    assert(is_ascii_chars(t));
    is_ascii_chars_encode_utf8(t);
    let tail = encode_utf8(t);
    assert forall|i: int| 0 <= i < tail.len() implies tail[i] != 47 by {
        assert(t[i] as u8 == tail[i]);
    }
    assert(t[0] as u8 == tail[0] && t[9] as u8 == tail[9] && t[10] as u8 == tail[10] && t[11] as u8
        == tail[11] && t[12] as u8 == tail[12]);
}

/// The output of a file is the stem of its name with `.sonicmux.mkv` behind it, in the chosen
/// directory or else beside the file; it is a Matroska file by its name.
pub proof fn law_output_paths(input: Seq<u8>, directory: Option<Seq<u8>>, stem: Seq<u8>)
    requires
        path::file_stem(input) == Some(stem),
    ensures
        ({
            let output = session::output_for(input, directory);
            &&& path::file_name(output) == Some(stem + encode_utf8(".sonicmux.mkv"@))
            &&& directory matches Some(d) ==> path::parent(output) == Some(path::body(d))
            &&& directory is None && path::parent(input) is Some ==> path::parent(output) == Some(
                path::body(path::parent(input)->0),
            )
            &&& path::is_mkv(output)
        }),
{
    lemma_tail();
    let tail = encode_utf8(".sonicmux.mkv"@);
    let name = stem + tail;
    let b = path::body(input);
    path::lemma_after_last(b, 47);
    let whole = path::file_name(input)->0;
    path::lemma_after_last(whole, 46);
    assert(!stem.contains(47)) by {
        if stem.contains(47) {
            let i = choose|i: int| 0 <= i < stem.len() && stem[i] == 47;
            assert(whole[i] == stem[i]);
            assert(whole[i] == b[path::after_last(b, 47) + i]);
        }
    }
    assert(!name.contains(47)) by {
        if name.contains(47) {
            let i = choose|i: int| 0 <= i < name.len() && name[i] == 47;
            if i < stem.len() {
                assert(stem.contains(stem[i]));
            } else {
                assert(tail.contains(tail[i - stem.len()]));
            }
        }
    }
    assert(name.len() >= 13);
    let place = match directory {
        Some(d) => d,
        None => match path::parent(input) {
            Some(p) => p,
            None => encode_utf8("."@),
        },
    };
    path_laws::law_names_in_directories(place, name);
    path_laws::law_matroska_names(path::join(place, name));
    let n = name.len() as int;
    assert(name[n - 4] == tail[9] && name[n - 3] == tail[10] && name[n - 2] == tail[11] && name[n
        - 1] == tail[12]);
}

/// A file is planned for with the settings of the session: its profile, target, mode and output, and
/// the first accepted audio where it is a remux. Settings that stand for nothing are told before
/// any plan is made.
pub proof fn law_sessions_plan_by_their_settings(
    media: MediaInfoView,
    settings: PlanSettingsView,
    output: Seq<u8>,
)
    ensures
        ({
            let r = session::planned(media, settings, output);
            let policy = PlanningView {
                compatibility: settings.policy,
                target: settings.target->Ok_0,
                output_mode: settings.mode->Ok_0,
                action: if settings.remux {
                    ActionView::RemuxOnly { selection: SelectorView::FirstCompatible }
                } else {
                    ActionView::Convert
                },
                output_path: output,
            };
            let usable = settings.target is Ok && settings.mode is Ok;
            &&& !usable <==> r is Err && r->Err_0 is Settings
            &&& settings.target matches Err(e) ==> r->Err_0 == PlanTroubleView::Settings(e)
            &&& usable ==> (r is Ok <==> plan::outcome(media, policy) is Ok)
            &&& usable && r is Ok ==> r->Ok_0 == plan::outcome(media, policy)->Ok_0
            &&& usable && r is Err ==> r->Err_0 == PlanTroubleView::Plan(
                plan::outcome(media, policy)->Err_0.message(),
            )
        }),
{
}

/// What is shown of a stream is what its plan does with it: copied, encoded, both, or left out; none
/// where nothing is to be done, and pending before there is a plan.
pub proof fn law_shown_actions(job: JobPlanView, reason: plan::SkipReason, source: u32, i: int)
    requires
        0 <= i < job.streams.len(),
        job.streams[i].source() == source,
    ensures
        ({
            let shown = session::action_text(Some(PlanOutcomeView::Execute(job)), source);
            let copied = exists|k: int|
                0 <= k < job.streams.len() && (#[trigger] job.streams[k]).source() == source
                    && job.streams[k] is Copy;
            let encoded = exists|k: int|
                0 <= k < job.streams.len() && (#[trigger] job.streams[k]).source() == source
                    && job.streams[k] is EncodeAudio;
            &&& copied && encoded ==> shown == "copy+encode"@
            &&& copied && !encoded ==> shown == "copy"@
            &&& !copied && encoded ==> shown == "encode"@
            &&& copied || encoded
            &&& session::action_text(Some(PlanOutcomeView::Skip(reason)), source) == "none"@
            &&& session::action_text(None, source) == "pending"@
        }),
{
}

/// A stream of which no output stream comes is shown as left out.
pub proof fn law_omitted_streams(job: JobPlanView, source: u32)
    requires
        forall|k: int|
            0 <= k < job.streams.len() ==> (#[trigger] job.streams[k]).source() != source,
    ensures
        session::action_text(Some(PlanOutcomeView::Execute(job)), source) == "omit"@,
{
}

/// The progress of a file is the part of it that is converted, in thousandths rounded down, at most
/// a thousand; it is known exactly where place and duration are and the duration is not zero.
pub proof fn law_file_progress(position: Option<u64>, duration: Option<u64>)
    ensures
        ({
            let r = session::progress_of(position, duration);
            let p = position->0;
            let d = duration->0;
            &&& r is Some <==> position is Some && duration is Some && d > 0
            &&& r is Some ==> r->0 <= 1_000 && r->0 * d <= p * 1_000
            &&& r is Some && p <= d && p * 1_000 <= u64::MAX ==> p * 1_000 < (r->0 + 1) * d
            &&& r is Some && p >= d && p * 1_000 <= u64::MAX ==> r->0 == 1_000
        }),
{
    let r = session::progress_of(position, duration);
    if r is Some {
        let p = position->0 as int;
        let d = duration->0 as int;
        let scaled = if p * 1_000 > u64::MAX {
            u64::MAX as int
        } else {
            p * 1_000
        };
        let m = scaled / d;
        assert(0 <= m && m * d <= scaled < (m + 1) * d) by (nonlinear_arith)
            requires
                d > 0,
                scaled >= 0,
                m == scaled / d,
        ;
        if m > 1_000 {
            assert(1_000 * d <= scaled) by (nonlinear_arith)
                requires
                    m > 1_000,
                    m * d <= scaled,
                    d > 0,
            ;
            if p <= d {
                assert(p * 1_000 < 1_001 * d);
                assert(scaled < 1_001 * d);
                assert(m < 1_001) by (nonlinear_arith)
                    requires
                        m * d <= scaled,
                        scaled < 1_001 * d,
                        d > 0,
                ;
            }
        } else if p >= d && p * 1_000 <= u64::MAX {
            assert(m >= 1_000) by (nonlinear_arith)
                requires
                    scaled >= 1_000 * d,
                    scaled < (m + 1) * d,
                    d > 0,
            ;
        }
    }
}

/// One more message stands last, behind all messages but, where as many are kept as there is room
/// for, the first.
pub proof fn law_logs(logs: Seq<Seq<char>>, message: Seq<char>, capacity: nat)
    ensures
        logs.len() < capacity ==> session::logged(logs, message, capacity) == logs.push(message),
        logs.len() == capacity && capacity > 0 ==> session::logged(logs, message, capacity)
            == logs.skip(1).push(message),
{
    assert(logs.drop_first() =~= logs.skip(1));
}

/// The target of a session is read as that of a configuration is, but for bitrates in millions, which
/// a session does not know.
pub proof fn law_session_targets(codec: Seq<char>, bitrate: Seq<char>, channels: Seq<char>)
    ensures
        ({
            let s = text::lower(text::trim(bitrate));
            let millions = s.len() > 0 && s.last() == 'm';
            let r = session::target_of(codec, bitrate, channels);
            &&& millions ==> r is Err
            &&& !millions ==> (r is Ok <==> config::target_of(codec, bitrate, channels) is Ok)
            &&& r is Ok ==> r->Ok_0 == config::target_of(codec, bitrate, channels)->Ok_0
        }),
{
    let s = text::lower(text::trim(bitrate));
    if s.len() > 0 && s.last() == 'm' {
        let digits = if s[0] == '+' {
            s.drop_first()
        } else {
            s
        };
        if digits.len() > 0 && text::all_digits(digits) {
            assert(text::is_digit(digits[digits.len() - 1]));
            assert(digits.last() == 'm');
        }
        assert(session::bitrate_of(bitrate) is None);
    } else {
        assert(session::bitrate_of(bitrate) == config::bitrate_value(bitrate));
    }
}

/// The choice with a name is the first that has it.
pub proof fn law_choices_are_found(choices: Seq<ProfileChoiceView>, name: Seq<char>)
    ensures
        ({
            let r = session::choice_index(choices, name, 0);
            &&& r matches Some(i) ==> 0 <= i < choices.len() && choices[i].name == name
                && forall|j: int| 0 <= j < i ==> (#[trigger] choices[j]).name != name
            &&& r is None ==> forall|j: int|
                0 <= j < choices.len() ==> (#[trigger] choices[j]).name != name
        }),
{
    lemma_choice(choices, name, 0);
}

proof fn lemma_choice(choices: Seq<ProfileChoiceView>, name: Seq<char>, from: int)
    requires
        0 <= from,
    ensures
        ({
            let r = session::choice_index(choices, name, from);
            &&& r matches Some(i) ==> from <= i < choices.len() && choices[i].name == name
                && forall|j: int| from <= j < i ==> (#[trigger] choices[j]).name != name
            &&& r is None ==> forall|j: int|
                from <= j < choices.len() ==> (#[trigger] choices[j]).name != name
        }),
    decreases choices.len() - from,
{
    if from < choices.len() && choices[from].name != name {
        lemma_choice(choices, name, from + 1);
    }
}

/// The profiles that can be chosen are the built-in ones and then those of the user, in their order;
/// where one of the user's cannot be used, the desktop leaves it out and the terminal tells why.
pub proof fn law_profiles_to_choose_from(
    names: Seq<Seq<char>>,
    name: Seq<char>,
    custom: Map<Seq<char>, ProfileFileView>,
)
    ensures
        ({
            let found = config::policy_named(name, custom);
            let usable = session::usable_choices(names, custom);
            let all = session::all_choices(names, custom);
            let more = session::all_choices(names.push(name), custom);
            &&& session::usable_choices(Seq::empty(), custom).len() == 0
            &&& found is Ok ==> session::usable_choices(names.push(name), custom) == usable.push(
                ProfileChoiceView { name, policy: found->Ok_0 },
            )
            &&& found is Err ==> session::usable_choices(names.push(name), custom) == usable
            &&& more is Ok <==> all is Ok && found is Ok
            &&& more is Ok ==> more->Ok_0 == all->Ok_0.push(
                ProfileChoiceView { name, policy: found->Ok_0 },
            )
            &&& all is Err ==> more->Err_0 == all->Err_0
        }),
{
    assert(names.push(name).drop_last() =~= names);
}

/// The built-in profiles stand first.
pub proof fn law_built_in_profiles_stand_first(config: EffectiveConfigView)
    ensures
        ({
            let names = session::names_in(config);
            &&& names.len() >= 4
            &&& names[0] == "generic-tv"@
            &&& names[1] == "samsung"@
            &&& names[2] == "lg"@
            &&& names[3] == "dlna"@
            &&& names.len() == 4 + table::listing(config.custom_profiles).len()
            &&& forall|i: int|
                4 <= i < names.len() ==> #[trigger] names[i] == table::listing(
                    config.custom_profiles,
                )[i - 4].0
        }),
{
}

} // verus!
