//! What holds of what the terminal shows.
use vstd::prelude::*;

use crate::number;
use crate::plan::PlanOutcomeView;
use crate::queue::{ItemView, QueueStatus};
use crate::session;
use crate::stream::StreamInfoView;
use crate::tui::editor;
use crate::tui::model::{AppPhase, OverlayView};
use crate::tui::ui;
use crate::tui::ui::Tone;

verus! {

/// The spelling of a number with two digits at least.
pub open spec fn two_digits(n: int) -> Seq<char> {
    if n < 10 {
        seq!['0'] + number::decimal(n)
    } else {
        number::decimal(n)
    }
}

proof fn lemma_two_digits(n: int)
    requires
        0 <= n,
    ensures
        ui::padded(number::decimal(n), 2, '0') == two_digits(n),
{
    if n < 10 {
        assert(number::decimal(n).len() == 1);
        assert(ui::padded(number::decimal(n), 2, '0') =~= seq!['0'] + number::decimal(n));
    } else {
        number::law_numbers_are_read_back(n / 10, n / 10);
        assert(number::decimal(n).len() >= 2);
    }
}

/// A time is shown in minutes and seconds, each with two digits at least; less than a second does not
/// count.
pub proof fn law_times_are_shown(minutes: int, seconds: int, rest: int)
    requires
        0 <= minutes,
        0 <= seconds < 60,
        0 <= rest < 1_000_000,
        (60 * minutes + seconds) * 1_000_000 + rest <= u64::MAX,
    ensures
        ui::clock_text(((60 * minutes + seconds) * 1_000_000 + rest) as u64) == two_digits(minutes)
            + ":"@ + two_digits(seconds),
{
    let us = (60 * minutes + seconds) * 1_000_000 + rest;
    assert(us / 1_000_000 == 60 * minutes + seconds);
    assert((60 * minutes + seconds) / 60 == minutes);
    assert((60 * minutes + seconds) % 60 == seconds);
    lemma_two_digits(minutes);
    lemma_two_digits(seconds);
}

/// A text is brought to a width from the left, and a wider one stays.
pub proof fn law_padding(s: Seq<char>, width: nat, fill: char, i: int)
    requires
        0 <= i < ui::padded(s, width, fill).len(),
    ensures
        ({
            let p = ui::padded(s, width, fill);
            let more = p.len() - s.len();
            &&& p.len() >= width
            &&& s.len() >= width ==> p == s
            &&& s.len() < width ==> p.len() == width
            &&& i < more ==> p[i] == fill
            &&& i >= more ==> p[i] == s[i - more]
        }),
{
}

/// Colors tell how a file fares: what went well, what failed, what was cancelled and what goes on;
/// without colors nothing is told apart.
pub proof fn law_tones(status: QueueStatus)
    ensures
        ui::tone_of(status, false) == Tone::Plain,
        ui::tone_of(status, true) == Tone::Good <==> status is Succeeded || status is Skipped
            || status is Compatible,
        ui::tone_of(status, true) == Tone::Bad <==> status is Failed,
        ui::tone_of(status, true) == Tone::Caution <==> status is Cancelled,
        ui::tone_of(status, true) == Tone::Active <==> status is Running || status is Preparing
            || status is Probing,
        ui::tone_of(status, true) == Tone::Neutral <==> status is Ready || status is Queued
            || status is Planned,
{
}

/// A file of the queue is shown with whether it is enabled, its mark and its name, and where there is
/// room with its progress in percent and the time that is left.
pub proof fn law_queue_columns(item: ItemView)
    ensures
        ({
            let few = ui::queue_columns(item, true);
            let all = ui::queue_columns(item, false);
            &&& few.len() == 3 && all.len() == 5
            &&& item.enabled ==> few[0] == "[x]"@
            &&& !item.enabled ==> few[0] == "[ ]"@
            &&& few[1] == item.status.mark()
            &&& few[2] == session::shown_name(item.input)
            &&& all[0] == few[0] && all[1] == few[1] && all[2] == few[2]
            &&& item.progress_milli is None ==> all[3] == "--"@
            &&& item.progress_milli matches Some(milli) ==> all[3] == ui::padded(
                number::decimal(milli as int / 10),
                3,
                ' ',
            ) + "%"@
            &&& item.eta_us is None ==> all[4] == "--"@
            &&& item.eta_us matches Some(us) ==> all[4] == ui::clock_text(us)
        }),
{
}

/// A track is shown with its number, its kind, its codec and what becomes of it, and where there is
/// room with its channels, its language and whether it is played by default.
pub proof fn law_track_columns(stream: StreamInfoView, plan: Option<PlanOutcomeView>)
    ensures
        ({
            let few = ui::track_columns(stream, plan, true);
            let all = ui::track_columns(stream, plan, false);
            let common = stream.common();
            &&& few.len() == 4 && all.len() == 7
            &&& few[0] == number::decimal(common.index as int)
            &&& stream is Attachment ==> few[1] == "attach"@
            &&& stream is Audio ==> few[1] == "audio"@
            &&& stream is Video ==> few[1] == "video"@
            &&& stream is Subtitle ==> few[1] == "subtitle"@
            &&& stream matches StreamInfoView::Audio(audio) ==> few[2] == audio.codec.name()
                && all[3] == number::decimal(audio.channels.count as int)
            &&& !(stream is Audio) ==> few[2] == common.codec_name && all[3] == "-"@
            &&& few[3] == session::action_text(plan, common.index)
            &&& all[0] == few[0] && all[1] == few[1] && all[2] == few[2] && all[6] == few[3]
            &&& common.metadata.dom().contains("language"@) ==> all[4]
                == common.metadata["language"@]
            &&& !common.metadata.dom().contains("language"@) ==> all[4] == "-"@
            &&& common.is_default() ==> all[5] == "default"@
            &&& !common.is_default() ==> all[5] == "-"@
        }),
{
}

/// Of the messages the last ones are shown, as many as there is room for, each with its number.
pub proof fn law_last_messages_are_shown(logs: Seq<Seq<char>>, height: nat, i: int)
    requires
        0 <= i < ui::shown_lines(logs, height).len(),
    ensures
        ({
            let shown = ui::shown_lines(logs, height);
            let at = logs.len() - shown.len() + i;
            &&& shown.len() <= height && shown.len() <= logs.len()
            &&& shown.len() == height || shown.len() == logs.len()
            &&& shown[i] == ui::padded(number::decimal(at + 1), 4, ' ') + "  "@ + logs[at]
        }),
{
}

/// What the windows are about.
pub proof fn law_windows(message: Seq<char>, value: Seq<char>, cursor: usize)
    ensures
        ui::popup_of(OverlayView::Help).title == "Help"@,
        ui::popup_of(OverlayView::ConfirmCancel).title == "Cancel active batch?"@,
        ui::popup_of(OverlayView::Notice(message)).content == message + "\n\nEnter or Esc: close"@,
        ui::popup_of(OverlayView::PathEditor { value, cursor }).content
            == "Enter a file, directory, or glob pattern:\n\n"@ + (value.take(
            editor::column(value, cursor),
        ) + seq!['|'] + value.skip(editor::column(value, cursor)))
            + "\n\nEnter: discover   Esc: cancel"@,
        ui::phase_name(AppPhase::Idle) == "idle"@,
        ui::phase_name(AppPhase::Running) == "running"@,
        ui::phase_name(AppPhase::Cancelling) == "cancelling"@,
{
}

} // verus!
