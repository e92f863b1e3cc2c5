//! What is shown in the terminal.
use std::collections::VecDeque;
use vstd::prelude::*;

use crate::cli::dto;
use crate::model;
use crate::number;
use crate::plan::{PlanOutcome, PlanOutcomeView};
use crate::queue::{ItemView, QueueItem, QueueStatus};
use crate::session;
use crate::stream::{StreamInfo, StreamInfoView};
use crate::text;
use crate::tui::editor;
use crate::tui::model::{AppPhase, Overlay, OverlayView};
use crate::tui::settings::{UiSettings, UiSettingsView};

verus! {

/// The least width of a terminal.
pub const MIN_WIDTH: u16 = 50;

/// The least height of a terminal.
pub const MIN_HEIGHT: u16 = 12;

/// The width from which the queue and the streams of a file are shown side by side.
pub const WIDE_WIDTH: u16 = 110;

/// The width from which all columns of the queue are shown.
pub const MEDIUM_WIDTH: u16 = 76;

/// The width from which all columns of the streams are shown.
pub const TRACKS_WIDTH: u16 = 58;

/// The width from which all keys are named below the screen.
pub const HELP_WIDTH: u16 = 80;

/// How a word is set off.
#[derive(Debug, Clone, Copy, PartialEq, Eq, Structural)]
pub enum Tone {
    /// Not at all.
    Plain,
    /// In bold.
    Bold,
    /// As good news.
    Good,
    /// As bad news.
    Bad,
    /// As a warning.
    Caution,
    /// As something that goes on.
    Active,
    /// As anything else.
    Neutral,
}

impl DeepView for Tone {
    type V = Tone;

    open spec fn deep_view(&self) -> Tone {
        *self
    }
}

/// A text made longer at its front.
pub open spec fn padded(s: Seq<char>, width: nat, fill: char) -> Seq<char> {
    if s.len() >= width {
        s
    } else {
        Seq::new((width - s.len()) as nat, |i: int| fill) + s
    }
}

fn pad(s: &str, width: usize, fill: char) -> (r: String)
    ensures
        r@ == padded(s@, width as nat, fill),
{
    let n: usize = text::chars_of(s).len();
    let mut out = String::new();
    let mut i: usize = n;
    proof {
        assert(out@ =~= Seq::new(0, |i: int| fill));
    }
    while i < width
        invariant
            n <= i,
            i <= width || i == n,
            out@ == Seq::new((i - n) as nat, |i: int| fill),
        decreases width - i,
    {
        out.push(fill);
        i = i + 1;
        proof {
            assert(out@ =~= Seq::new((i - n) as nat, |i: int| fill));
        }
    }
    text::push_text(&mut out, s);
    proof {
        if n >= width {
            assert(out@ =~= s@);
        }
    }
    out
}

/// Whether a terminal is too small.
pub fn is_too_small(width: u16, height: u16) -> (r: bool)
    ensures
        r == (width < MIN_WIDTH || height < MIN_HEIGHT),
{
    width < MIN_WIDTH || height < MIN_HEIGHT
}

/// What is shown in a terminal that is too small.
pub fn too_small_text(width: u16, height: u16) -> (r: String)
    ensures
        r@ == "SonicMux needs at least 50x12 cells.\nCurrent terminal: "@ + number::decimal(
            width as int,
        ) + "x"@ + number::decimal(height as int),
{
    let mut out = text::concat3(
        "SonicMux needs at least 50x12 cells.\nCurrent terminal: ",
        number::show_u64(width as u64).as_str(),
        "x",
    );
    text::push_text(&mut out, number::show_u64(height as u64).as_str());
    out
}

/// The name of what is going on.
pub open spec fn phase_name(phase: AppPhase) -> Seq<char> {
    match phase {
        AppPhase::Idle => "idle"@,
        AppPhase::Running => "running"@,
        AppPhase::Cancelling => "cancelling"@,
    }
}

/// The name of what is going on.
pub fn phase_label(phase: AppPhase) -> (r: &'static str)
    ensures
        r@ == phase_name(phase),
{
    match phase {
        AppPhase::Idle => "idle",
        AppPhase::Running => "running",
        AppPhase::Cancelling => "cancelling",
    }
}

/// How the name of what is going on is set off.
pub fn phase_tone(phase: AppPhase, color: bool) -> (r: Tone)
    ensures
        r == if !color {
            Tone::Bold
        } else {
            match phase {
                AppPhase::Idle => Tone::Good,
                AppPhase::Running => Tone::Active,
                AppPhase::Cancelling => Tone::Caution,
            }
        },
{
    if !color {
        return Tone::Bold;
    }
    match phase {
        AppPhase::Idle => Tone::Good,
        AppPhase::Running => Tone::Active,
        AppPhase::Cancelling => Tone::Caution,
    }
}

/// How the mark of a file is set off.
pub open spec fn tone_of(status: QueueStatus, color: bool) -> Tone {
    if !color {
        Tone::Plain
    } else {
        match status {
            QueueStatus::Succeeded => Tone::Good,
            QueueStatus::Skipped => Tone::Good,
            QueueStatus::Compatible => Tone::Good,
            QueueStatus::Failed => Tone::Bad,
            QueueStatus::Cancelled => Tone::Caution,
            QueueStatus::Running => Tone::Active,
            QueueStatus::Preparing => Tone::Active,
            QueueStatus::Probing => Tone::Active,
            _ => Tone::Neutral,
        }
    }
}

/// How the mark of a file is set off.
pub fn status_tone(status: QueueStatus, color: bool) -> (r: Tone)
    ensures
        r == tone_of(status, color),
{
    if !color {
        return Tone::Plain;
    }
    match status {
        QueueStatus::Succeeded => Tone::Good,
        QueueStatus::Skipped => Tone::Good,
        QueueStatus::Compatible => Tone::Good,
        QueueStatus::Failed => Tone::Bad,
        QueueStatus::Cancelled => Tone::Caution,
        QueueStatus::Running => Tone::Active,
        QueueStatus::Preparing => Tone::Active,
        QueueStatus::Probing => Tone::Active,
        _ => Tone::Neutral,
    }
}

/// What is shown of the settings above the screen.
pub open spec fn header_of(settings: UiSettingsView) -> Seq<char> {
    settings.profile_name() + " \u{b7} "@ + text::upper(settings.codec) + " "@ + settings.bitrate
        + " \u{b7} jobs "@ + number::decimal(settings.jobs as int)
}

/// What is shown of the settings above the screen.
pub fn header_text(settings: &UiSettings) -> (r: String)
    ensures
        r@ == header_of(settings@),
{
    let mut out = text::concat3(
        settings.profile_name(),
        " \u{b7} ",
        text::to_upper(settings.codec.as_str()).as_str(),
    );
    text::push_text(&mut out, " ");
    text::push_text(&mut out, settings.bitrate.as_str());
    text::push_text(&mut out, " \u{b7} jobs ");
    text::push_text(&mut out, number::show_usize(settings.jobs).as_str());
    out
}

/// A time in minutes and seconds.
pub open spec fn clock_text(us: u64) -> Seq<char> {
    let seconds = us as int / 1_000_000;
    padded(number::decimal(seconds / 60), 2, '0') + ":"@ + padded(
        number::decimal(seconds % 60),
        2,
        '0',
    )
}

/// A time in minutes and seconds.
pub fn format_duration(us: u64) -> (r: String)
    ensures
        r@ == clock_text(us),
{
    let seconds: u64 = us / 1_000_000;
    text::concat3(
        pad(number::show_u64(seconds / 60).as_str(), 2, '0').as_str(),
        ":",
        pad(number::show_u64(seconds % 60).as_str(), 2, '0').as_str(),
    )
}

/// The columns of a file in the queue.
pub open spec fn queue_columns(item: ItemView, compact: bool) -> Seq<Seq<char>> {
    let first = seq![
        if item.enabled {
            "[x]"@
        } else {
            "[ ]"@
        },
        item.status.mark(),
        session::shown_name(item.input),
    ];
    if compact {
        first
    } else {
        first + seq![
            match item.progress_milli {
                Some(milli) => padded(number::decimal(milli as int / 10), 3, ' ') + "%"@,
                None => "--"@,
            },
            match item.eta_us {
                Some(us) => clock_text(us),
                None => "--"@,
            },
        ]
    }
}

/// The columns of a file in the queue.
pub fn queue_cells(item: &QueueItem, compact: bool) -> (r: Vec<String>)
    ensures
        r.deep_view() == queue_columns(item@, compact),
{
    let mut cells: Vec<String> = Vec::new();
    let mark = if item.enabled {
        "[x]"
    } else {
        "[ ]"
    };
    cells.push(mark.to_owned());
    cells.push(item.status.label().to_owned());
    cells.push(session::show_name(&item.input));
    if !compact {
        let done = match item.progress_milli {
            Some(milli) => text::concat2(
                pad(number::show_u64((milli / 10) as u64).as_str(), 3, ' ').as_str(),
                "%",
            ),
            None => "--".to_owned(),
        };
        let eta = match item.eta_us {
            Some(us) => format_duration(us),
            None => "--".to_owned(),
        };
        cells.push(done);
        cells.push(eta);
    }
    proof {
        assert(cells.deep_view() =~= queue_columns(item@, compact));
    }
    cells
}

/// The kind of a stream in a column.
pub open spec fn short_kind(stream: StreamInfoView) -> Seq<char> {
    match stream {
        StreamInfoView::Attachment(_) => "attach"@,
        _ => dto::kind_of(stream),
    }
}

/// The columns of a stream.
pub open spec fn track_columns(
    stream: StreamInfoView,
    plan: Option<PlanOutcomeView>,
    compact: bool,
) -> Seq<Seq<char>> {
    let common = stream.common();
    let index = number::decimal(common.index as int);
    let codec = match stream {
        StreamInfoView::Audio(audio) => audio.codec.name(),
        _ => common.codec_name,
    };
    let action = session::action_text(plan, common.index);
    if compact {
        seq![index, short_kind(stream), codec, action]
    } else {
        seq![
            index,
            short_kind(stream),
            codec,
            match stream {
                StreamInfoView::Audio(audio) => number::decimal(audio.channels.count as int),
                _ => "-"@,
            },
            match model::lookup(common.metadata, "language"@) {
                Some(language) => language,
                None => "-"@,
            },
            if common.is_default() {
                "default"@
            } else {
                "-"@
            },
            action,
        ]
    }
}

/// The columns of a stream.
pub fn track_cells(stream: &StreamInfo, plan: &Option<PlanOutcome>, compact: bool) -> (r: Vec<
    String,
>)
    ensures
        r.deep_view() == track_columns(stream@, plan.deep_view(), compact),
{
    let common = stream.common();
    let mut cells: Vec<String> = Vec::new();
    cells.push(number::show_u64(stream.index().get() as u64));
    let kind = match stream {
        StreamInfo::Attachment(_) => "attach",
        _ => dto::stream_kind(stream),
    };
    cells.push(kind.to_owned());
    let codec = match stream {
        StreamInfo::Audio(audio) => audio.codec().show(),
        _ => common.codec_name().to_owned(),
    };
    cells.push(codec);
    if !compact {
        let channels = match stream {
            StreamInfo::Audio(audio) => number::show_u64(audio.channels().count().get() as u64),
            _ => "-".to_owned(),
        };
        cells.push(channels);
        let language = match common.metadata().get("language") {
            Some(language) => language,
            None => "-",
        };
        cells.push(language.to_owned());
        let default = if common.dispositions().is_default() {
            "default"
        } else {
            "-"
        };
        cells.push(default.to_owned());
    }
    cells.push(session::planned_action(plan, stream.index()).to_owned());
    proof {
        assert(cells.deep_view() =~= track_columns(stream@, plan.deep_view(), compact));
    }
    cells
}

/// How many messages stand above those that fit.
pub open spec fn first_shown(count: nat, height: nat) -> nat {
    if count > height {
        (count - height) as nat
    } else {
        0
    }
}

/// The messages that fit, each with its number.
pub open spec fn shown_lines(logs: Seq<Seq<char>>, height: nat) -> Seq<Seq<char>> {
    let start = first_shown(logs.len(), height);
    Seq::new(
        (logs.len() - start) as nat,
        |i: int|
            padded(number::decimal(start + i + 1), 4, ' ') + "  "@ + logs[start + i],
    )
}

/// The messages that fit, each with its number. There are fewer messages than can be counted.
pub fn log_lines(logs: &VecDeque<String>, height: usize) -> (r: Vec<String>)
    ensures
        r.deep_view() == shown_lines(logs.deep_view(), height as nat),
{
    let ghost all = logs.deep_view();
    let n: usize = logs.len();
    let start: usize = if n > height {
        n - height
    } else {
        0
    };
    let mut out: Vec<String> = Vec::new();
    let mut i: usize = start;
    while i < n
        invariant
            all == logs.deep_view(),
            all.len() == n,
            n == logs@.len(),
            start == first_shown(all.len(), height as nat),
            start <= i <= n,
            out@.len() == i - start,
            forall|k: int|
                0 <= k < i - start ==> (#[trigger] out@[k])@ == padded(
                    number::decimal(start + k + 1),
                    4,
                    ' ',
                ) + "  "@ + all[start + k],
        decreases n - i,
    {
        proof {
            assert(all[i as int] == logs@[i as int]@);
        }
        let line = text::concat3(
            pad(number::show_usize(i + 1).as_str(), 4, ' ').as_str(),
            "  ",
            logs[i].as_str(),
        );
        out.push(line);
        i = i + 1;
    }
    proof {
        assert(out.deep_view() =~= shown_lines(all, height as nat));
    }
    out
}

/// What is shown of the progress of a batch.
pub fn overall_label(progress_milli: Option<u16>) -> (r: String)
    ensures
        r@ == match progress_milli {
            Some(milli) => "Overall "@ + number::decimal(milli as int / 10) + "%"@,
            None => "Overall --"@,
        },
{
    match progress_milli {
        Some(milli) => text::concat3(
            "Overall ",
            number::show_u64((milli / 10) as u64).as_str(),
            "%",
        ),
        None => "Overall --".to_owned(),
    }
}

/// The keys that are named below the screen.
pub fn footer_help(width: u16) -> (r: &'static str)
    ensures
        r@ == if width >= HELP_WIDTH {
            "a add  d remove  Space enable  s start  c cancel  j/k move  ? help  q quit"@
        } else {
            "a add  s start  c cancel  j/k move  ? help"@
        },
{
    if width >= HELP_WIDTH {
        "a add  d remove  Space enable  s start  c cancel  j/k move  ? help  q quit"
    } else {
        "a add  s start  c cancel  j/k move  ? help"
    }
}

/// A window above the screen.
#[derive(Debug)]
pub struct Popup {
    /// Its width.
    pub width: u16,
    /// Its height.
    pub height: u16,
    /// Its title.
    pub title: &'static str,
    /// What is in it.
    pub content: String,
}

/// A window above the screen.
pub struct PopupView {
    /// Its width.
    pub width: u16,
    /// Its height.
    pub height: u16,
    /// Its title.
    pub title: Seq<char>,
    /// What is in it.
    pub content: Seq<char>,
}

impl View for Popup {
    type V = PopupView;

    open spec fn view(&self) -> PopupView {
        PopupView {
            width: self.width,
            height: self.height,
            title: self.title@,
            content: self.content@,
        }
    }
}

/// The window for what is shown above the screen. The cursor of a path is a bar.
pub open spec fn popup_of(overlay: OverlayView) -> PopupView {
    match overlay {
        OverlayView::Help => PopupView {
            width: 68,
            height: 18,
            title: "Help"@,
            content: "1\u{2013}4 / Tab   switch screens\nj/k, arrows move selection\ng/G         first / last item\na           add file, directory, or glob\nd           remove selected idle item\nSpace       enable or disable selected item\ns           start enabled ready items\nc, Ctrl+C   cancel and wait for cleanup\nr           retry failed or cancelled items\nh/l, Enter  change selected setting\nq           quit when idle\nEsc         close an overlay"@,
        },
        OverlayView::PathEditor { value, cursor } => PopupView {
            width: 72,
            height: 7,
            title: "Add MKV input"@,
            content: "Enter a file, directory, or glob pattern:\n\n"@ + editor::put_in(
                value,
                editor::column(value, cursor),
                seq!['|'],
            ) + "\n\nEnter: discover   Esc: cancel"@,
        },
        OverlayView::ConfirmCancel => PopupView {
            width: 58,
            height: 7,
            title: "Cancel active batch?"@,
            content:
                "SonicMux will stop admission, terminate FFmpeg, and clean staging files.\n\nEnter/y: cancel batch   n/Esc: keep running"@,
        },
        OverlayView::Notice(message) => PopupView {
            width: 68,
            height: 8,
            title: "Action required"@,
            content: message + "\n\nEnter or Esc: close"@,
        },
    }
}

/// The window for what is shown above the screen.
pub fn popup(overlay: &Overlay) -> (r: Popup)
    requires
        overlay@ matches OverlayView::PathEditor { value, cursor } ==> editor::on_boundary(
            value,
            cursor,
        ),
    ensures
        r@ == popup_of(overlay@),
{
    match overlay {
        Overlay::Help => Popup {
            width: 68,
            height: 18,
            title: "Help",
            content: "1\u{2013}4 / Tab   switch screens\nj/k, arrows move selection\ng/G         first / last item\na           add file, directory, or glob\nd           remove selected idle item\nSpace       enable or disable selected item\ns           start enabled ready items\nc, Ctrl+C   cancel and wait for cleanup\nr           retry failed or cancelled items\nh/l, Enter  change selected setting\nq           quit when idle\nEsc         close an overlay".to_owned(),
        },
        Overlay::PathEditor { value, cursor } => {
            let mut visible = value.clone();
            let mut place: usize = *cursor;
            editor::insert_char(&mut visible, &mut place, '|');
            Popup {
                width: 72,
                height: 7,
                title: "Add MKV input",
                content: text::concat3(
                    "Enter a file, directory, or glob pattern:\n\n",
                    visible.as_str(),
                    "\n\nEnter: discover   Esc: cancel",
                ),
            }
        },
        Overlay::ConfirmCancel => Popup {
            width: 58,
            height: 7,
            title: "Cancel active batch?",
            content:
                "SonicMux will stop admission, terminate FFmpeg, and clean staging files.\n\nEnter/y: cancel batch   n/Esc: keep running".to_owned(),
        },
        Overlay::Notice(message) => Popup {
            width: 68,
            height: 8,
            title: "Action required",
            content: text::concat2(message.as_str(), "\n\nEnter or Esc: close"),
        },
    }
}

/// A part of the terminal.
#[derive(Debug, Clone, Copy, PartialEq, Eq)]
pub struct Area {
    /// Cells to its left.
    pub x: u16,
    /// Cells above it.
    pub y: u16,
    /// Its width.
    pub width: u16,
    /// Its height.
    pub height: u16,
}

/// The smaller of two sizes.
pub open spec fn lesser(a: u16, b: u16) -> u16 {
    if a <= b {
        a
    } else {
        b
    }
}

/// The part of a part that is in its middle.
pub fn centered_rect(width: u16, height: u16, area: Area) -> (r: Area)
    requires
        area.x + area.width <= u16::MAX,
        area.y + area.height <= u16::MAX,
    ensures
        r.width == lesser(width, area.width),
        r.height == lesser(height, area.height),
        r.x == area.x + (area.width - r.width) / 2,
        r.y == area.y + (area.height - r.height) / 2,
        area.x <= r.x,
        area.y <= r.y,
        r.x + r.width <= area.x + area.width,
        r.y + r.height <= area.y + area.height,
{
    let w: u16 = if width <= area.width {
        width
    } else {
        area.width
    };
    let h: u16 = if height <= area.height {
        height
    } else {
        area.height
    };
    Area {
        x: area.x + (area.width - w) / 2,
        y: area.y + (area.height - h) / 2,
        width: w,
        height: h,
    }
}

/// Whether colors are used: not where they were refused, and by default in a terminal only.
pub fn use_color(refused: bool, setting: &str, terminal: bool) -> (r: bool)
    ensures
        r == (!refused && if setting@ == "always"@ {
            true
        } else if setting@ == "never"@ {
            false
        } else {
            terminal
        }),
{
    if refused {
        false
    } else if text::same(setting, "always") {
        proof {
            reveal_strlit("always");
            reveal_strlit("never");
        }
        true
    } else if text::same(setting, "never") {
        false
    } else {
        terminal
    }
}

/// How many files are inspected at once: at least one and at most four.
pub fn probe_jobs(jobs: usize) -> (r: usize)
    ensures
        r == if jobs < 1 {
            1
        } else if jobs > 4 {
            4
        } else {
            jobs
        },
{
    if jobs < 1 {
        1
    } else if jobs > 4 {
        4
    } else {
        jobs
    }
}

} // verus!
