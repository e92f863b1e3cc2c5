//! The state of the terminal interface and what everything that happens comes to.
use std::collections::VecDeque;
use vstd::prelude::*;
use vstd::string::*;
use vstd::utf8::*;

use crate::media::{MediaInfo, MediaInfoView};
use crate::number;
use crate::path::FilePath;
use crate::queue;
use crate::queue::{Interface, ItemView, QueueItem};
use crate::runtime::batch;
use crate::runtime::batch::{
    BatchEvent, BatchEventView, BatchReport, BatchReportView, BatchRequest, BatchRequestView,
    BatchSnapshot, OptionsView, SchedulerError, SchedulerErrorView, SchedulerOptions, SnapshotView,
    MAX_CONCURRENCY,
};
use crate::runtime::discovery::{
    DiscoveryError, DiscoveryErrorView, DiscoveryRequest, DiscoveryRequestView,
};
use crate::runtime::error::{RuntimeError, RuntimeErrorView};
use crate::session;
use crate::text;
use crate::tui::editor;
use crate::tui::settings;
use crate::tui::settings::{UiSettings, UiSettingsView, FIELD_COUNT};

verus! {

/// What is shown in the terminal.
#[derive(Debug, Clone, Copy, PartialEq, Eq, Structural)]
pub enum Screen {
    /// The queue.
    Queue,
    /// The streams of a file.
    Tracks,
    /// Messages.
    Logs,
    /// The settings.
    Settings,
}

impl DeepView for Screen {
    type V = Screen;

    open spec fn deep_view(&self) -> Screen {
        *self
    }
}

impl Screen {
    /// The place of the screen.
    pub open spec fn place(self) -> int {
        match self {
            Screen::Queue => 0,
            Screen::Tracks => 1,
            Screen::Logs => 2,
            Screen::Settings => 3,
        }
    }

    /// The screen at a place, counted round.
    pub open spec fn at(place: int) -> Screen {
        if place % 4 == 0 {
            Screen::Queue
        } else if place % 4 == 1 {
            Screen::Tracks
        } else if place % 4 == 2 {
            Screen::Logs
        } else {
            Screen::Settings
        }
    }

    /// The place of the screen.
    pub fn index(self) -> (r: usize)
        ensures
            r == self.place(),
    {
        match self {
            Screen::Queue => 0,
            Screen::Tracks => 1,
            Screen::Logs => 2,
            Screen::Settings => 3,
        }
    }

    /// The screen at a place, counted round.
    pub fn from_index(index: usize) -> (r: Screen)
        ensures
            r == Screen::at(index as int),
    {
        match index % 4 {
            0 => Screen::Queue,
            1 => Screen::Tracks,
            2 => Screen::Logs,
            _ => Screen::Settings,
        }
    }
}

/// Going to the next screen and back again stays on the screen.
pub proof fn law_screens_go_round(screen: Screen)
    ensures
        Screen::at(screen.place()) == screen,
        Screen::at(Screen::at(screen.place() + 1).place() + 3) == screen,
{
}

/// What is going on in the terminal.
#[derive(Debug, Clone, Copy, PartialEq, Eq, Structural)]
pub enum AppPhase {
    /// Nothing.
    Idle,
    /// A batch.
    Running,
    /// A batch that is being cancelled.
    Cancelling,
}

impl DeepView for AppPhase {
    type V = AppPhase;

    open spec fn deep_view(&self) -> AppPhase {
        *self
    }
}

/// What is shown above the screen.
#[derive(Debug, PartialEq, Eq)]
pub enum Overlay {
    /// The keys.
    Help,
    /// A path that is entered.
    PathEditor {
        /// The path.
        value: String,
        /// Where the cursor stands.
        cursor: usize,
    },
    /// Whether the batch is to be cancelled.
    ConfirmCancel,
    /// A message.
    Notice(String),
}

/// What is shown above the screen.
pub enum OverlayView {
    /// The keys.
    Help,
    /// A path that is entered.
    PathEditor {
        /// The path.
        value: Seq<char>,
        /// Where the cursor stands.
        cursor: usize,
    },
    /// Whether the batch is to be cancelled.
    ConfirmCancel,
    /// A message.
    Notice(Seq<char>),
}

impl View for Overlay {
    type V = OverlayView;

    open spec fn view(&self) -> OverlayView {
        match self {
            Overlay::Help => OverlayView::Help,
            Overlay::PathEditor { value, cursor } => OverlayView::PathEditor {
                value: value@,
                cursor: *cursor,
            },
            Overlay::ConfirmCancel => OverlayView::ConfirmCancel,
            Overlay::Notice(value) => OverlayView::Notice(value@),
        }
    }
}

impl DeepView for Overlay {
    type V = OverlayView;

    open spec fn deep_view(&self) -> OverlayView {
        self@
    }
}

impl Clone for Overlay {
    fn clone(&self) -> (r: Self)
        ensures
            r@ == self@,
    {
        match self {
            Overlay::Help => Overlay::Help,
            Overlay::PathEditor { value, cursor } => Overlay::PathEditor {
                value: value.clone(),
                cursor: *cursor,
            },
            Overlay::ConfirmCancel => Overlay::ConfirmCancel,
            Overlay::Notice(value) => Overlay::Notice(value.clone()),
        }
    }
}

/// A key.
#[derive(Debug, Clone, Copy, PartialEq, Eq, Structural)]
pub enum KeyCode {
    /// A character.
    Char(char),
    /// To the next screen.
    Tab,
    /// To the screen before.
    BackTab,
    /// Escape.
    Esc,
    /// Enter.
    Enter,
    /// Takes out the character before the cursor.
    Backspace,
    /// Takes out the character behind the cursor.
    Delete,
    /// To the left.
    Left,
    /// To the right.
    Right,
    /// Up.
    Up,
    /// Down.
    Down,
    /// To the beginning.
    Home,
    /// To the end.
    End,
    /// Any other key.
    Other,
}

/// Something that was done with a key.
#[derive(Debug, Clone, Copy, PartialEq, Eq, Structural)]
pub struct KeyEvent {
    /// The key.
    pub code: KeyCode,
    /// Whether the control key was held.
    pub control: bool,
    /// Whether the key was pressed, not let go.
    pub pressed: bool,
}

impl KeyEvent {
    /// A key that was pressed alone.
    pub fn new(code: KeyCode) -> (r: Self)
        ensures
            r == (KeyEvent { code, control: false, pressed: true }),
    {
        KeyEvent { code, control: false, pressed: true }
    }
}

/// Something that the terminal interface hears of.
#[derive(Debug)]
pub enum Msg {
    /// A key.
    Input(KeyEvent),
    /// A text that was pasted.
    Paste(String),
    /// The terminal has another size.
    Resize,
    /// Time has passed.
    Tick,
    /// Inputs were found, or were not.
    InputsDiscovered(Result<Vec<FilePath>, DiscoveryError>),
    /// A file was inspected, or could not be.
    ProbeFinished(u64, Result<MediaInfo, RuntimeError>),
    /// How far a batch is.
    BatchSnapshot(BatchSnapshot),
    /// What a batch reports.
    BatchEvent(BatchEvent),
    /// Reports that were missed.
    EventsLagged(u64),
    /// A task that failed.
    TaskFailed(String),
    /// A batch is over.
    BatchFinished(Result<BatchReport, SchedulerError>),
}

/// Something that the terminal interface hears of.
pub enum MsgView {
    /// A key.
    Input(KeyEvent),
    /// A text that was pasted.
    Paste(Seq<char>),
    /// The terminal has another size.
    Resize,
    /// Time has passed.
    Tick,
    /// Inputs were found, or were not.
    InputsDiscovered(Result<Seq<Seq<u8>>, DiscoveryErrorView>),
    /// A file was inspected, or could not be.
    ProbeFinished(u64, Result<MediaInfoView, RuntimeErrorView>),
    /// How far a batch is.
    BatchSnapshot(SnapshotView),
    /// What a batch reports.
    BatchEvent(BatchEventView),
    /// Reports that were missed.
    EventsLagged(u64),
    /// A task that failed.
    TaskFailed(Seq<char>),
    /// A batch is over.
    BatchFinished(Result<BatchReportView, SchedulerErrorView>),
}

/// What is told of inputs that were looked for.
pub open spec fn discovered_told(result: Result<Vec<FilePath>, DiscoveryError>) -> Result<
    Seq<Seq<u8>>,
    DiscoveryErrorView,
> {
    match result {
        Ok(files) => Ok(files.deep_view()),
        Err(e) => Err(e@),
    }
}

/// What is told of the inspection of a file.
pub open spec fn probe_told(result: Result<MediaInfo, RuntimeError>) -> Result<
    MediaInfoView,
    RuntimeErrorView,
> {
    match result {
        Ok(media) => Ok(media@),
        Err(e) => Err(e@),
    }
}

/// What is told of the end of a batch.
pub open spec fn report_told(result: Result<BatchReport, SchedulerError>) -> Result<
    BatchReportView,
    SchedulerErrorView,
> {
    match result {
        Ok(report) => Ok(report@),
        Err(e) => Err(e@),
    }
}

impl View for Msg {
    type V = MsgView;

    open spec fn view(&self) -> MsgView {
        match self {
            Msg::Input(key) => MsgView::Input(*key),
            Msg::Paste(value) => MsgView::Paste(value@),
            Msg::Resize => MsgView::Resize,
            Msg::Tick => MsgView::Tick,
            Msg::InputsDiscovered(result) => MsgView::InputsDiscovered(discovered_told(*result)),
            Msg::ProbeFinished(id, result) => MsgView::ProbeFinished(*id, probe_told(*result)),
            Msg::BatchSnapshot(snapshot) => MsgView::BatchSnapshot(snapshot@),
            Msg::BatchEvent(event) => MsgView::BatchEvent(event@),
            Msg::EventsLagged(count) => MsgView::EventsLagged(*count),
            Msg::TaskFailed(message) => MsgView::TaskFailed(message@),
            Msg::BatchFinished(result) => MsgView::BatchFinished(report_told(*result)),
        }
    }
}

/// Something that the terminal interface asks for.
#[derive(Debug, PartialEq, Eq)]
pub enum Effect {
    /// Inputs are to be found.
    Discover(DiscoveryRequest),
    /// A file is to be inspected.
    Probe(u64, FilePath),
    /// A batch is to be started.
    StartBatch,
    /// The batch is to be cancelled.
    CancelBatch,
}

/// Something that the terminal interface asks for.
pub enum EffectView {
    /// Inputs are to be found.
    Discover(DiscoveryRequestView),
    /// A file is to be inspected.
    Probe(u64, Seq<u8>),
    /// A batch is to be started.
    StartBatch,
    /// The batch is to be cancelled.
    CancelBatch,
}

impl View for Effect {
    type V = EffectView;

    open spec fn view(&self) -> EffectView {
        match self {
            Effect::Discover(value) => EffectView::Discover(value@),
            Effect::Probe(v0, v1) => EffectView::Probe(*v0, v1@),
            Effect::StartBatch => EffectView::StartBatch,
            Effect::CancelBatch => EffectView::CancelBatch,
        }
    }
}

impl DeepView for Effect {
    type V = EffectView;

    open spec fn deep_view(&self) -> EffectView {
        self@
    }
}

/// How many messages are kept.
pub const LOG_CAPACITY: usize = 1_000;

/// The state of the terminal interface.
#[derive(Debug)]
pub struct Model {
    /// The screen that is shown.
    pub screen: Screen,
    /// What is going on.
    pub phase: AppPhase,
    /// The queue.
    pub queue: Vec<QueueItem>,
    /// The place of the file that is selected.
    pub selected: Option<usize>,
    /// The settings.
    pub settings: UiSettings,
    /// How far the batch is.
    pub snapshot: Option<BatchSnapshot>,
    /// What is shown above the screen.
    pub overlay: Option<Overlay>,
    /// Messages.
    pub logs: VecDeque<String>,
    /// Whether the interface is to be left.
    pub should_quit: bool,
    /// Whether colors are used.
    pub color: bool,
    /// The number of the next file.
    pub next_id: u64,
    /// The numbers of the files of the batch.
    pub active_queue_ids: Vec<u64>,
    /// How inputs are looked for.
    pub discovery_template: DiscoveryRequest,
}

/// The state of the terminal interface.
pub struct ModelView {
    /// The screen that is shown.
    pub screen: Screen,
    /// What is going on.
    pub phase: AppPhase,
    /// The queue.
    pub queue: Seq<ItemView>,
    /// The place of the file that is selected.
    pub selected: Option<usize>,
    /// The settings.
    pub settings: UiSettingsView,
    /// How far the batch is.
    pub snapshot: Option<SnapshotView>,
    /// What is shown above the screen.
    pub overlay: Option<OverlayView>,
    /// Messages.
    pub logs: Seq<Seq<char>>,
    /// Whether the interface is to be left.
    pub should_quit: bool,
    /// Whether colors are used.
    pub color: bool,
    /// The number of the next file.
    pub next_id: u64,
    /// The numbers of the files of the batch.
    pub active_queue_ids: Seq<u64>,
    /// How inputs are looked for.
    pub discovery_template: DiscoveryRequestView,
}

impl View for Model {
    type V = ModelView;

    open spec fn view(&self) -> ModelView {
        ModelView {
            screen: self.screen,
            phase: self.phase,
            queue: self.queue.deep_view(),
            selected: self.selected,
            settings: self.settings@,
            snapshot: self.snapshot.deep_view(),
            overlay: self.overlay.deep_view(),
            logs: self.logs.deep_view(),
            should_quit: self.should_quit,
            color: self.color,
            next_id: self.next_id,
            active_queue_ids: self.active_queue_ids@,
            discovery_template: self.discovery_template@,
        }
    }
}

/// The state after something was heard of, and what is asked for.
pub struct Reaction {
    /// The state.
    pub model: ModelView,
    /// What is asked for, in order.
    pub effects: Seq<EffectView>,
}

/// Files that are to be inspected.
pub open spec fn probes(files: Seq<(u64, Seq<u8>)>) -> Seq<EffectView> {
    Seq::new(files.len(), |i: int| EffectView::Probe(files[i].0, files[i].1))
}

/// What is said of a report of a batch, where anything is.
pub open spec fn event_text(event: BatchEventView) -> Option<Seq<char>> {
    match event {
        BatchEventView::BatchStarted { total, concurrency, .. } => Some(
            "batch started: "@ + number::decimal(total as int) + " file(s), concurrency "@
                + number::decimal(concurrency as int),
        ),
        BatchEventView::PreparationStarted => Some("preparing files"@),
        BatchEventView::FileStarted { path, .. } => Some("preparing "@ + text::lossy(path)),
        BatchEventView::FilePrepared { path, status, .. } => Some(
            "prepared "@ + text::lossy(path) + ": "@ + status.label(),
        ),
        BatchEventView::ExecutionStarted { ready } => Some(
            "executing "@ + number::decimal(ready as int) + " prepared file(s)"@,
        ),
        BatchEventView::FileProgress { .. } => None,
        BatchEventView::FileFinished { path, status, .. } => Some(
            "finished "@ + text::lossy(path) + ": "@ + status.label(),
        ),
        BatchEventView::BatchFinished => Some("batch finished"@),
        BatchEventView::BatchCancelled => Some("batch cancellation cleanup finished"@),
    }
}

/// A truth value as it is shown.
pub open spec fn bool_text(value: bool) -> Seq<char> {
    if value {
        "true"@
    } else {
        "false"@
    }
}

impl ModelView {
    /// Whether a cursor stands between two characters and a profile is chosen that is there.
    pub open spec fn well_formed(self) -> bool {
        &&& self.settings.well_formed()
        &&& self.overlay matches Some(OverlayView::PathEditor { value, cursor })
            ==> editor::on_boundary(value, cursor)
    }

    /// The state with a message kept.
    pub open spec fn logging(self, message: Seq<char>) -> ModelView {
        ModelView { logs: session::logged(self.logs, message, LOG_CAPACITY as nat), ..self }
    }

    /// The state alone.
    pub open spec fn alone(self) -> Reaction {
        Reaction { model: self, effects: seq![] }
    }

    /// The state with something asked for.
    pub open spec fn asking(self, effect: EffectView) -> Reaction {
        Reaction { model: self, effects: seq![effect] }
    }

    /// The state with a message shown.
    pub open spec fn noting(self, message: Seq<char>) -> ModelView {
        ModelView { overlay: Some(OverlayView::Notice(message)), ..self }
    }

    /// What a wish to cancel comes to: a batch that runs is cancelled.
    pub open spec fn cancel_requested(self) -> Reaction {
        if self.phase == AppPhase::Running {
            ModelView { phase: AppPhase::Cancelling, ..self }.logging(
                "cancellation requested; waiting for cleanup"@,
            ).asking(EffectView::CancelBatch)
        } else {
            self.alone()
        }
    }

    /// Whether a batch can be started.
    pub open spec fn can_start(self) -> bool {
        self.phase == AppPhase::Idle && queue::startable(self.queue)
    }

    /// Why a batch cannot be started.
    pub open spec fn start_blocker(self) -> Seq<char> {
        if self.phase != AppPhase::Idle {
            "a batch is already active"@
        } else if !queue::some_enabled(self.queue) {
            "enable at least one queue item before starting"@
        } else {
            "wait for every enabled file to finish probing or resolve its error"@
        }
    }

    /// The state with all plans made again.
    pub open spec fn rebuilt(self) -> ModelView {
        ModelView {
            queue: queue::rebuilt(self.queue, self.settings.planning(), Interface::Terminal),
            ..self
        }
    }

    /// The state with the selected setting changed.
    pub open spec fn changed(self, back: bool) -> ModelView {
        ModelView { settings: self.settings.changed(back), ..self }.rebuilt()
    }

    /// The state with the selection moved.
    pub open spec fn moved(self, back: bool) -> ModelView {
        if self.screen == Screen::Settings {
            ModelView {
                settings: UiSettingsView {
                    selected_field: settings::moved(
                        self.settings.selected_field as int,
                        FIELD_COUNT as int,
                        back,
                    ) as usize,
                    ..self.settings
                },
                ..self
            }
        } else if self.queue.len() == 0 {
            ModelView { selected: None, ..self }
        } else {
            let current: int = match self.selected {
                Some(i) => i as int,
                None => 0,
            };
            ModelView {
                selected: Some(settings::moved(current, self.queue.len() as int, back) as usize),
                ..self
            }
        }
    }

    /// The state with the first thing selected.
    pub open spec fn at_first(self) -> ModelView {
        if self.screen == Screen::Settings {
            ModelView { settings: UiSettingsView { selected_field: 0, ..self.settings }, ..self }
        } else if self.queue.len() > 0 {
            ModelView { selected: Some(0), ..self }
        } else {
            self
        }
    }

    /// The state with the last thing selected.
    pub open spec fn at_last(self) -> ModelView {
        if self.screen == Screen::Settings {
            ModelView {
                settings: UiSettingsView {
                    selected_field: (FIELD_COUNT - 1) as usize,
                    ..self.settings
                },
                ..self
            }
        } else if self.queue.len() > 0 {
            ModelView { selected: Some((self.queue.len() - 1) as usize), ..self }
        } else {
            self
        }
    }

    /// The state with the selected file taken out.
    pub open spec fn removed(self) -> ModelView {
        match self.selected {
            None => self,
            Some(index) => {
                let rest = if index < self.queue.len() {
                    self.queue.remove(index as int)
                } else {
                    self.queue
                };
                ModelView {
                    queue: rest,
                    selected: if rest.len() == 0 {
                        None
                    } else if index < rest.len() {
                        Some(index)
                    } else {
                        Some((rest.len() - 1) as usize)
                    },
                    ..self
                }
            },
        }
    }

    /// The state with the selected file enabled, or not any more.
    pub open spec fn toggled(self) -> ModelView {
        match self.selected {
            Some(index) => if index < self.queue.len() {
                let item = self.queue[index as int];
                ModelView {
                    queue: self.queue.update(
                        index as int,
                        ItemView { enabled: !item.enabled, ..item },
                    ),
                    ..self
                }
            } else {
                self
            },
            None => self,
        }
    }

    /// The state with files tried again.
    pub open spec fn retried(self) -> Reaction {
        Reaction {
            model: ModelView { queue: queue::retried(self.queue, None), ..self }.rebuilt(),
            effects: probes(queue::reprobed(self.queue, None)),
        }
    }

    /// What a key comes to where nothing is shown above the screen.
    pub open spec fn key_pressed(self, key: KeyEvent) -> Reaction {
        let idle = self.phase == AppPhase::Idle;
        match key.code {
            KeyCode::Tab => ModelView {
                screen: Screen::at(self.screen.place() + 1),
                ..self
            }.alone(),
            KeyCode::BackTab => ModelView {
                screen: Screen::at(self.screen.place() + 3),
                ..self
            }.alone(),
            KeyCode::Down => self.moved(false).alone(),
            KeyCode::Up => self.moved(true).alone(),
            KeyCode::Left => if idle && self.screen == Screen::Settings {
                self.changed(true).alone()
            } else {
                self.alone()
            },
            KeyCode::Right => if idle && self.screen == Screen::Settings {
                self.changed(false).alone()
            } else {
                self.alone()
            },
            KeyCode::Enter => if idle && self.screen == Screen::Settings {
                self.changed(false).alone()
            } else {
                self.alone()
            },
            KeyCode::Char(c) => self.char_pressed(c),
            _ => self.alone(),
        }
    }

    /// What a character comes to where nothing is shown above the screen.
    pub open spec fn char_pressed(self, c: char) -> Reaction {
        let idle = self.phase == AppPhase::Idle;
        if c == '?' {
            ModelView { overlay: Some(OverlayView::Help), ..self }.alone()
        } else if c == '1' {
            ModelView { screen: Screen::Queue, ..self }.alone()
        } else if c == '2' {
            ModelView { screen: Screen::Tracks, ..self }.alone()
        } else if c == '3' {
            ModelView { screen: Screen::Logs, ..self }.alone()
        } else if c == '4' {
            ModelView { screen: Screen::Settings, ..self }.alone()
        } else if c == 'q' {
            if idle {
                ModelView { should_quit: true, ..self }.alone()
            } else {
                ModelView { overlay: Some(OverlayView::ConfirmCancel), ..self }.alone()
            }
        } else if c == 'a' && idle {
            ModelView {
                overlay: Some(OverlayView::PathEditor { value: seq![], cursor: 0 }),
                ..self
            }.alone()
        } else if c == 's' && self.screen == Screen::Queue {
            if self.can_start() {
                self.asking(EffectView::StartBatch)
            } else {
                self.noting(self.start_blocker()).alone()
            }
        } else if c == 'c' {
            self.cancel_requested()
        } else if c == 'r' && idle {
            self.retried()
        } else if c == 'd' && idle && self.screen == Screen::Queue {
            self.removed().alone()
        } else if c == ' ' && idle && self.screen == Screen::Queue {
            self.toggled().alone()
        } else if c == 'j' {
            self.moved(false).alone()
        } else if c == 'k' {
            self.moved(true).alone()
        } else if c == 'g' {
            self.at_first().alone()
        } else if c == 'G' {
            self.at_last().alone()
        } else if c == 'h' && idle && self.screen == Screen::Settings {
            self.changed(true).alone()
        } else if c == 'l' && idle && self.screen == Screen::Settings {
            self.changed(false).alone()
        } else {
            self.alone()
        }
    }

    /// The state with a path entered so far.
    pub open spec fn editing(self, value: Seq<char>, cursor: usize) -> Reaction {
        ModelView { overlay: Some(OverlayView::PathEditor { value, cursor }), ..self }.alone()
    }

    /// What a key comes to while a path is entered.
    pub open spec fn editor_pressed(self, value: Seq<char>, cursor: usize, key: KeyEvent) -> Reaction {
        let k = editor::column(value, cursor);
        match key.code {
            KeyCode::Esc => self.alone(),
            KeyCode::Enter => if text::trim(value).len() == 0 {
                self.noting(
                    "Path cannot be empty. Close this message and press a to try again."@,
                ).alone()
            } else {
                self.asking(
                    EffectView::Discover(
                        DiscoveryRequestView {
                            roots: seq![encode_utf8(value)],
                            ..self.discovery_template
                        },
                    ),
                )
            },
            KeyCode::Char(c) => if !key.control {
                let longer = editor::put_in(value, k, seq![c]);
                self.editing(longer, editor::size(longer.take(k + 1)) as usize)
            } else {
                self.editing(value, cursor)
            },
            KeyCode::Backspace => if k > 0 {
                let shorter = value.remove(k - 1);
                self.editing(shorter, editor::size(shorter.take(k - 1)) as usize)
            } else {
                self.editing(value, cursor)
            },
            KeyCode::Delete => if k < value.len() {
                self.editing(value.remove(k), cursor)
            } else {
                self.editing(value, cursor)
            },
            KeyCode::Left => self.editing(
                value,
                editor::size(
                    value.take(
                        if k > 0 {
                            k - 1
                        } else {
                            0
                        },
                    ),
                ) as usize,
            ),
            KeyCode::Right => self.editing(
                value,
                editor::size(
                    value.take(
                        if k < value.len() {
                            k + 1
                        } else {
                            value.len() as int
                        },
                    ),
                ) as usize,
            ),
            KeyCode::Home => self.editing(value, 0),
            KeyCode::End => self.editing(value, editor::size(value) as usize),
            _ => self.editing(value, cursor),
        }
    }

    /// What a key comes to while something is shown above the screen.
    pub open spec fn overlay_pressed(self, overlay: OverlayView, key: KeyEvent) -> Reaction {
        let kept = ModelView { overlay: Some(overlay), ..self }.alone();
        match overlay {
            OverlayView::PathEditor { value, cursor } => self.editor_pressed(value, cursor, key),
            OverlayView::ConfirmCancel => match key.code {
                KeyCode::Enter => self.cancel_requested(),
                KeyCode::Esc => self.alone(),
                KeyCode::Char(c) => if c == 'y' {
                    self.cancel_requested()
                } else if c == 'n' || c == 'q' {
                    self.alone()
                } else {
                    kept
                },
                _ => kept,
            },
            _ => match key.code {
                KeyCode::Esc => self.alone(),
                KeyCode::Enter => self.alone(),
                KeyCode::Char(c) => if c == 'q' || c == '?' {
                    self.alone()
                } else {
                    kept
                },
                _ => kept,
            },
        }
    }

    /// What a key comes to.
    pub open spec fn on_key(self, key: KeyEvent) -> Reaction {
        match self.overlay {
            Some(overlay) => ModelView { overlay: None, ..self }.overlay_pressed(overlay, key),
            None => if key.control && key.code == KeyCode::Char('c') {
                self.cancel_requested()
            } else {
                self.key_pressed(key)
            },
        }
    }

    /// What a text comes to that was pasted. Nothing but an entered path stays above the screen.
    pub open spec fn on_paste(self, pasted: Seq<char>) -> Reaction {
        match self.overlay {
            Some(OverlayView::PathEditor { value, cursor }) => {
                let k = editor::column(value, cursor);
                let longer = editor::put_in(value, k, pasted);
                self.editing(longer, editor::size(longer.take(k + pasted.len())) as usize)
            },
            _ => ModelView { overlay: None, ..self }.alone(),
        }
    }

    /// What inputs come to that were found.
    pub open spec fn on_discovered(self, result: Result<Seq<Seq<u8>>, DiscoveryErrorView>) -> Reaction {
        match result {
            Err(e) => self.logging("discovery failed: "@ + e.message()).noting(
                e.message(),
            ).alone(),
            Ok(files) => {
                let after = queue::enqueued(
                    self.queue,
                    self.next_id,
                    files,
                    self.settings.output_directory,
                    Interface::Terminal,
                );
                Reaction {
                    model: ModelView {
                        queue: after.queue,
                        next_id: after.next_id,
                        selected: if self.selected is None && after.queue.len() > 0 {
                            Some(0)
                        } else {
                            self.selected
                        },
                        ..self
                    }.logging(
                        "queue contains "@ + number::decimal(after.queue.len() as int)
                            + " unique MKV file(s)"@,
                    ),
                    effects: probes(after.fresh),
                }
            },
        }
    }

    /// What the inspection of a file comes to.
    pub open spec fn on_probe(self, id: u64, result: Result<MediaInfoView, RuntimeErrorView>) -> ModelView {
        match queue::index_of(self.queue, id, 0) {
            None => self,
            Some(i) => {
                let item = self.queue[i];
                match result {
                    Ok(media) => ModelView {
                        queue: self.queue.update(
                            i,
                            queue::replanned_item(
                                ItemView { media: Some(media), ..item },
                                self.settings.planning(),
                                Interface::Terminal,
                            ),
                        ),
                        ..self
                    }.logging("probed "@ + text::lossy(item.input)),
                    Err(e) => ModelView {
                        queue: self.queue.update(i, queue::unprobed_item(item, e.message())),
                        ..self
                    }.logging(
                        "probe failed for "@ + text::lossy(item.input) + ": "@ + e.message(),
                    ),
                }
            },
        }
    }

    /// What it comes to how far a batch is.
    pub open spec fn on_snapshot(self, snapshot: SnapshotView) -> ModelView {
        ModelView {
            queue: queue::shown(self.queue, self.active_queue_ids, snapshot.files),
            snapshot: Some(snapshot),
            ..self
        }
    }

    /// What a report of a batch comes to.
    pub open spec fn on_batch_event(self, event: BatchEventView) -> ModelView {
        match event_text(event) {
            Some(message) => self.logging(message),
            None => self,
        }
    }

    /// What the end of a batch comes to.
    pub open spec fn on_batch_finished(self, result: Result<BatchReportView, SchedulerErrorView>) -> ModelView {
        let over = ModelView {
            phase: AppPhase::Idle,
            snapshot: None,
            active_queue_ids: seq![],
            ..self
        };
        match result {
            Ok(report) => ModelView {
                queue: queue::concluded(
                    self.queue,
                    self.active_queue_ids,
                    report.results,
                    Interface::Terminal,
                ),
                ..over
            }.logging(
                "batch complete: "@ + number::decimal(batch::failures(report.results) as int)
                    + " failure(s), cancelled="@ + bool_text(report.cancellation is Some),
            ),
            Err(e) => over.logging("scheduler failed: "@ + e.message()).noting(e.message()),
        }
    }

    /// What a failed task comes to: a batch that runs is cancelled.
    pub open spec fn on_task_failed(self, message: Seq<char>) -> Reaction {
        let noted = self.logging(message).noting(message);
        if self.phase == AppPhase::Running {
            ModelView { phase: AppPhase::Cancelling, ..noted }.asking(EffectView::CancelBatch)
        } else {
            noted.alone()
        }
    }

    /// The state after something was heard of.
    pub open spec fn updated(self, message: MsgView) -> Reaction {
        match message {
            MsgView::Input(key) => if key.pressed {
                self.on_key(key)
            } else {
                self.alone()
            },
            MsgView::Paste(value) => self.on_paste(value),
            MsgView::Resize => self.alone(),
            MsgView::Tick => self.alone(),
            MsgView::InputsDiscovered(result) => self.on_discovered(result),
            MsgView::ProbeFinished(id, result) => self.on_probe(id, result).alone(),
            MsgView::BatchSnapshot(snapshot) => self.on_snapshot(snapshot).alone(),
            MsgView::BatchEvent(event) => self.on_batch_event(event).alone(),
            MsgView::EventsLagged(count) => self.logging(
                "event receiver lagged by "@ + number::decimal(count as int)
                    + "; recovered from the latest snapshot"@,
            ).alone(),
            MsgView::TaskFailed(message) => self.on_task_failed(message),
            MsgView::BatchFinished(result) => self.on_batch_finished(result).alone(),
        }
    }

    /// The state with the enabled files given to a batch, and the batch, or why there is none.
    pub open spec fn batch_built(self) -> (ModelView, Result<BatchRequestView, Seq<char>>) {
        match (self.settings.target(), session::mode_of(self.settings.mode)) {
            (Err(message), _) => (self, Err(message)),
            (Ok(_), Err(message)) => (self, Err(message)),
            (Ok(target), Ok(output_mode)) => {
                let jobs = self.settings.jobs;
                let given = ModelView {
                    queue: queue::started(self.queue, Interface::Terminal),
                    active_queue_ids: queue::enabled_ids(self.queue),
                    ..self
                };
                if jobs == 0 {
                    (given, Err("scheduler jobs must be greater than zero"@))
                } else if jobs > MAX_CONCURRENCY {
                    (
                        given,
                        Err(
                            (SchedulerErrorView::InvalidConcurrency {
                                value: jobs,
                                maximum: MAX_CONCURRENCY,
                            }).message(),
                        ),
                    )
                } else {
                    (
                        ModelView { phase: AppPhase::Running, ..given },
                        Ok(
                            BatchRequestView {
                                files: queue::requests_for(
                                    self.queue,
                                    self.settings.policy(),
                                    target,
                                    output_mode,
                                    self.settings.action_remux,
                                ),
                                options: OptionsView {
                                    max_concurrency: jobs,
                                    failure_policy: self.settings.failure_policy,
                                    dry_run: self.settings.dry_run,
                                },
                            },
                        ),
                    )
                }
            },
        }
    }

    /// The state after a batch was asked for, and the batch. Where there is none, the reason is
    /// shown.
    pub open spec fn batch_begun(self) -> (ModelView, Option<BatchRequestView>) {
        match self.batch_built() {
            (model, Ok(request)) => (model, Some(request)),
            (model, Err(message)) => (
                ModelView { phase: AppPhase::Idle, ..model }.noting(message),
                None,
            ),
        }
    }
}

fn no_effects() -> (r: Vec<Effect>)
    ensures
        r.deep_view() == Seq::<EffectView>::empty(),
{
    let r: Vec<Effect> = Vec::new();
    proof {
        assert(r.deep_view() =~= Seq::<EffectView>::empty());
    }
    r
}

fn one_effect(effect: Effect) -> (r: Vec<Effect>)
    ensures
        r.deep_view() == seq![effect@],
{
    let mut r: Vec<Effect> = Vec::new();
    r.push(effect);
    proof {
        assert(r.deep_view() =~= seq![effect@]);
    }
    r
}

fn probe_effects(files: &Vec<(u64, FilePath)>) -> (r: Vec<Effect>)
    ensures
        r.deep_view() == probes(queue::fresh_told(files@)),
{
    let mut r: Vec<Effect> = Vec::new();
    let mut i: usize = 0;
    while i < files.len()
        invariant
            i <= files@.len(),
            r@.len() == i,
            forall|k: int|
                0 <= k < i ==> (#[trigger] r@[k])@ == EffectView::Probe(
                    files@[k].0,
                    files@[k].1@,
                ),
        decreases files@.len() - i,
    {
        r.push(Effect::Probe(files[i].0, files[i].1.clone()));
        i = i + 1;
    }
    proof {
        assert(r.deep_view() =~= probes(queue::fresh_told(files@)));
    }
    r
}

fn show_event(event: &BatchEvent) -> (r: Option<String>)
    ensures
        r.deep_view() == event_text(event@),
{
    match event {
        BatchEvent::BatchStarted { total, concurrency, .. } => {
            let mut out = text::concat3(
                "batch started: ",
                number::show_usize(*total).as_str(),
                " file(s), concurrency ",
            );
            text::push_text(&mut out, number::show_usize(*concurrency).as_str());
            Some(out)
        },
        BatchEvent::PreparationStarted => Some("preparing files".to_owned()),
        BatchEvent::FileStarted { path, .. } => Some(
            text::concat2("preparing ", path.display().as_str()),
        ),
        BatchEvent::FilePrepared { path, status, .. } => {
            let mut out = text::concat3("prepared ", path.display().as_str(), ": ");
            text::push_text(&mut out, status.as_str());
            Some(out)
        },
        BatchEvent::ExecutionStarted { ready } => Some(
            text::concat3(
                "executing ",
                number::show_usize(*ready).as_str(),
                " prepared file(s)",
            ),
        ),
        BatchEvent::FileProgress { .. } => None,
        BatchEvent::FileFinished { path, status, .. } => {
            let mut out = text::concat3("finished ", path.display().as_str(), ": ");
            text::push_text(&mut out, status.as_str());
            Some(out)
        },
        BatchEvent::BatchFinished => Some("batch finished".to_owned()),
        BatchEvent::BatchCancelled => Some("batch cancellation cleanup finished".to_owned()),
    }
}

impl Model {
    /// The state at the beginning.
    pub fn new(settings: UiSettings, discovery_template: DiscoveryRequest, color: bool) -> (r: Self)
        ensures
            r@ == (ModelView {
                screen: Screen::Queue,
                phase: AppPhase::Idle,
                queue: seq![],
                selected: None,
                settings: settings@,
                snapshot: None,
                overlay: None,
                logs: seq![],
                should_quit: false,
                color,
                next_id: 0,
                active_queue_ids: seq![],
                discovery_template: discovery_template@,
            }),
    {
        let r = Model {
            screen: Screen::Queue,
            phase: AppPhase::Idle,
            queue: Vec::new(),
            selected: None,
            settings,
            snapshot: None,
            overlay: None,
            logs: VecDeque::new(),
            should_quit: false,
            color,
            next_id: 0,
            active_queue_ids: Vec::new(),
            discovery_template,
        };
        proof {
            assert(r.queue.deep_view() =~= Seq::<ItemView>::empty());
            assert(r.logs.deep_view() =~= Seq::<Seq<char>>::empty());
            assert(r.active_queue_ids@ =~= Seq::<u64>::empty());
        }
        r
    }

    /// What is asked for at the beginning: inputs are found where any were given.
    pub fn startup_effect(&self) -> (r: Option<Effect>)
        ensures
            r.deep_view() == if self@.discovery_template.roots.len() > 0 {
                Some(EffectView::Discover(self@.discovery_template))
            } else {
                None
            },
    {
        proof {
            assert(self.discovery_template.roots.deep_view().len()
                == self.discovery_template.roots@.len());
        }
        if self.discovery_template.roots.len() > 0 {
            Some(Effect::Discover(self.discovery_template.clone()))
        } else {
            None
        }
    }

    /// The file that is selected.
    pub fn selected_item(&self) -> (r: Option<&QueueItem>)
        ensures
            match r {
                Some(item) => self@.selected matches Some(i) && i < self@.queue.len() && item@
                    == self@.queue[i as int],
                None => self@.selected matches Some(i) ==> i >= self@.queue.len(),
            },
    {
        let ghost all = self.queue.deep_view();
        match self.selected {
            Some(i) => {
                if i < self.queue.len() {
                    proof {
                        assert(all[i as int] == self.queue@[i as int]@);
                    }
                    Some(&self.queue[i])
                } else {
                    None
                }
            },
            None => None,
        }
    }

    /// How far the batch is in thousandths.
    pub fn overall_progress(&self) -> (r: Option<u16>)
        ensures
            r == match self@.snapshot {
                Some(s) => s.progress_milli,
                None => None,
            },
    {
        match &self.snapshot {
            Some(s) => s.progress_milli(),
            None => None,
        }
    }

    fn log(&mut self, message: String)
        ensures
            final(self)@ == old(self)@.logging(message@),
    {
        session::append_log(&mut self.logs, message, LOG_CAPACITY);
    }

    fn request_cancel(&mut self) -> (r: Vec<Effect>)
        ensures
            final(self)@ == old(self)@.cancel_requested().model,
            r.deep_view() == old(self)@.cancel_requested().effects,
    {
        match self.phase {
            AppPhase::Running => {
                self.phase = AppPhase::Cancelling;
                self.log("cancellation requested; waiting for cleanup".to_owned());
                one_effect(Effect::CancelBatch)
            },
            _ => no_effects(),
        }
    }

    fn is_idle(&self) -> (r: bool)
        ensures
            r == (self@.phase == AppPhase::Idle),
    {
        match self.phase {
            AppPhase::Idle => true,
            _ => false,
        }
    }

    fn on_queue(&self) -> (r: bool)
        ensures
            r == (self@.screen == Screen::Queue),
    {
        match self.screen {
            Screen::Queue => true,
            _ => false,
        }
    }

    fn on_settings(&self) -> (r: bool)
        ensures
            r == (self@.screen == Screen::Settings),
    {
        match self.screen {
            Screen::Settings => true,
            _ => false,
        }
    }

    fn start_blocker(&self) -> (r: String)
        ensures
            r@ == self@.start_blocker(),
    {
        if !self.is_idle() {
            "a batch is already active".to_owned()
        } else if !queue::any_enabled(&self.queue) {
            "enable at least one queue item before starting".to_owned()
        } else {
            "wait for every enabled file to finish probing or resolve its error".to_owned()
        }
    }

    fn rebuild_plans(&mut self)
        ensures
            final(self)@ == old(self)@.rebuilt(),
    {
        let planning = self.settings.planning();
        queue::rebuild(&mut self.queue, &planning, Interface::Terminal);
    }

    fn change_setting(&mut self, direction: i32)
        requires
            old(self)@.well_formed(),
        ensures
            final(self)@ == old(self)@.changed(direction < 0),
            final(self)@.well_formed(),
    {
        self.settings.change(direction);
        self.rebuild_plans();
    }

    fn move_selection(&mut self, delta: i32)
        ensures
            final(self)@ == old(self)@.moved(delta < 0),
    {
        proof {
            assert(self.queue.deep_view().len() == self.queue@.len());
        }
        if self.on_settings() {
            self.settings.selected_field = settings::move_bounded(
                self.settings.selected_field,
                FIELD_COUNT,
                delta,
            );
            return;
        }
        if self.queue.len() == 0 {
            self.selected = None;
            return;
        }
        let current: usize = match self.selected {
            Some(i) => i,
            None => 0,
        };
        self.selected = Some(settings::move_bounded(current, self.queue.len(), delta));
    }

    fn select_first(&mut self)
        ensures
            final(self)@ == old(self)@.at_first(),
    {
        proof {
            assert(self.queue.deep_view().len() == self.queue@.len());
        }
        if self.on_settings() {
            self.settings.selected_field = 0;
        } else if self.queue.len() > 0 {
            self.selected = Some(0);
        }
    }

    fn select_last(&mut self)
        ensures
            final(self)@ == old(self)@.at_last(),
    {
        proof {
            assert(self.queue.deep_view().len() == self.queue@.len());
        }
        if self.on_settings() {
            self.settings.selected_field = FIELD_COUNT - 1;
        } else if self.queue.len() > 0 {
            self.selected = Some(self.queue.len() - 1);
        }
    }

    fn remove_selected(&mut self)
        ensures
            final(self)@ == old(self)@.removed(),
    {
        let ghost all = self.queue.deep_view();
        proof {
            assert(all.len() == self.queue@.len());
        }
        let index: usize = match self.selected {
            Some(i) => i,
            None => {
                return;
            },
        };
        if index < self.queue.len() {
            let _ = self.queue.remove(index);
            proof {
                assert(self.queue.deep_view() =~= all.remove(index as int));
            }
        }
        proof {
            assert(self.queue.deep_view().len() == self.queue@.len());
        }
        self.selected = if self.queue.len() == 0 {
            None
        } else if index < self.queue.len() {
            Some(index)
        } else {
            Some(self.queue.len() - 1)
        };
    }

    fn toggle_selected(&mut self)
        ensures
            final(self)@ == old(self)@.toggled(),
    {
        let ghost all = self.queue.deep_view();
        proof {
            assert(all.len() == self.queue@.len());
        }
        match self.selected {
            Some(i) => {
                if i < self.queue.len() {
                    proof {
                        assert(all[i as int] == self.queue@[i as int]@);
                    }
                    let enabled = !self.queue[i].enabled;
                    queue::set_enabled(&mut self.queue, i, enabled);
                }
            },
            None => {},
        }
    }

    fn retry_terminal(&mut self) -> (r: Vec<Effect>)
        ensures
            final(self)@ == old(self)@.retried().model,
            r.deep_view() == old(self)@.retried().effects,
    {
        let files = queue::retry(&mut self.queue, None);
        self.rebuild_plans();
        probe_effects(&files)
    }

    fn on_char(&mut self, c: char) -> (r: Vec<Effect>)
        requires
            old(self)@.well_formed(),
        ensures
            final(self)@ == old(self)@.char_pressed(c).model,
            final(self)@.well_formed(),
            r.deep_view() == old(self)@.char_pressed(c).effects,
    {
        let idle = self.is_idle();
        if c == '?' {
            self.overlay = Some(Overlay::Help);
        } else if c == '1' {
            self.screen = Screen::Queue;
        } else if c == '2' {
            self.screen = Screen::Tracks;
        } else if c == '3' {
            self.screen = Screen::Logs;
        } else if c == '4' {
            self.screen = Screen::Settings;
        } else if c == 'q' {
            if idle {
                self.should_quit = true;
            } else {
                self.overlay = Some(Overlay::ConfirmCancel);
            }
        } else if c == 'a' && idle {
            let value = String::new();
            let cursor: usize = editor::end_boundary(value.as_str());
            proof {
                assert(value@ =~= Seq::<char>::empty());
                assert(value@.take(0) =~= value@);
            }
            self.overlay = Some(Overlay::PathEditor { value, cursor });
        } else if c == 's' && self.on_queue() {
            if idle && queue::can_start(&self.queue) {
                return one_effect(Effect::StartBatch);
            }
            self.overlay = Some(Overlay::Notice(self.start_blocker()));
        } else if c == 'c' {
            return self.request_cancel();
        } else if c == 'r' && idle {
            return self.retry_terminal();
        } else if c == 'd' && idle && self.on_queue() {
            self.remove_selected();
        } else if c == ' ' && idle && self.on_queue() {
            self.toggle_selected();
        } else if c == 'j' {
            self.move_selection(1);
        } else if c == 'k' {
            self.move_selection(-1);
        } else if c == 'g' {
            self.select_first();
        } else if c == 'G' {
            self.select_last();
        } else if c == 'h' && idle && self.on_settings() {
            self.change_setting(-1);
        } else if c == 'l' && idle && self.on_settings() {
            self.change_setting(1);
        }
        no_effects()
    }

    fn on_plain_key(&mut self, key: KeyEvent) -> (r: Vec<Effect>)
        requires
            old(self)@.well_formed(),
        ensures
            final(self)@ == old(self)@.key_pressed(key).model,
            final(self)@.well_formed(),
            r.deep_view() == old(self)@.key_pressed(key).effects,
    {
        let open = self.is_idle() && self.on_settings();
        match key.code {
            KeyCode::Tab => {
                self.screen = Screen::from_index(self.screen.index() + 1);
            },
            KeyCode::BackTab => {
                self.screen = Screen::from_index(self.screen.index() + 3);
            },
            KeyCode::Down => {
                self.move_selection(1);
            },
            KeyCode::Up => {
                self.move_selection(-1);
            },
            KeyCode::Left => {
                if open {
                    self.change_setting(-1);
                }
            },
            KeyCode::Right => {
                if open {
                    self.change_setting(1);
                }
            },
            KeyCode::Enter => {
                if open {
                    self.change_setting(1);
                }
            },
            KeyCode::Char(c) => {
                return self.on_char(c);
            },
            _ => {},
        }
        no_effects()
    }

    fn edit(&mut self, value: String, cursor: usize)
        ensures
            final(self)@ == old(self)@.editing(value@, cursor).model,
    {
        self.overlay = Some(Overlay::PathEditor { value, cursor });
    }

    fn on_editor_key(&mut self, value: String, cursor: usize, key: KeyEvent) -> (r: Vec<Effect>)
        requires
            editor::on_boundary(value@, cursor),
        ensures
            final(self)@ == old(self)@.editor_pressed(value@, cursor, key).model,
            old(self)@.well_formed() ==> final(self)@.well_formed(),
            r.deep_view() == old(self)@.editor_pressed(value@, cursor, key).effects,
    {
        let mut value = value;
        let mut cursor: usize = cursor;
        let ghost line = value@;
        let ghost k = editor::column(value@, cursor);
        proof {
            assert(editor::stands_at(value@, cursor, k));
        }
        match key.code {
            KeyCode::Esc => {},
            KeyCode::Enter => {
                if text::trimmed(value.as_str()).as_str().is_empty() {
                    self.overlay = Some(
                        Overlay::Notice(
                            "Path cannot be empty. Close this message and press a to try again.".to_owned(),
                        ),
                    );
                } else {
                    let mut request = self.discovery_template.clone();
                    let mut roots: Vec<FilePath> = Vec::new();
                    roots.push(FilePath::from_text(value.as_str()));
                    proof {
                        assert(roots.deep_view() =~= seq![encode_utf8(line)]);
                    }
                    request.roots = roots;
                    return one_effect(Effect::Discover(request));
                }
            },
            KeyCode::Char(c) => {
                if !key.control {
                    editor::insert_char(&mut value, &mut cursor, c);
                }
                self.edit(value, cursor);
            },
            KeyCode::Backspace => {
                editor::remove_previous_char(&mut value, &mut cursor);
                self.edit(value, cursor);
            },
            KeyCode::Delete => {
                editor::remove_next_char(&mut value, cursor);
                self.edit(value, cursor);
            },
            KeyCode::Left => {
                cursor = editor::previous_boundary(value.as_str(), cursor);
                self.edit(value, cursor);
            },
            KeyCode::Right => {
                cursor = editor::next_boundary(value.as_str(), cursor);
                self.edit(value, cursor);
            },
            KeyCode::Home => {
                proof {
                    assert(value@.take(0) =~= Seq::<char>::empty());
                    assert(encode_utf8(Seq::<char>::empty()).len() == 0);
                    assert(editor::stands_at(value@, 0, 0));
                }
                self.edit(value, 0);
            },
            KeyCode::End => {
                cursor = editor::end_boundary(value.as_str());
                proof {
                    assert(value@.take(value@.len() as int) =~= value@);
                }
                self.edit(value, cursor);
            },
            _ => {
                self.edit(value, cursor);
            },
        }
        no_effects()
    }

    fn on_confirm_key(&mut self, key: KeyEvent) -> (r: Vec<Effect>)
        ensures
            final(self)@ == old(self)@.overlay_pressed(OverlayView::ConfirmCancel, key).model,
            r.deep_view() == old(self)@.overlay_pressed(OverlayView::ConfirmCancel, key).effects,
    {
        match key.code {
            KeyCode::Enter => {
                return self.request_cancel();
            },
            KeyCode::Esc => {},
            KeyCode::Char(c) => {
                if c == 'y' {
                    return self.request_cancel();
                }
                if c != 'n' && c != 'q' {
                    self.overlay = Some(Overlay::ConfirmCancel);
                }
            },
            _ => {
                self.overlay = Some(Overlay::ConfirmCancel);
            },
        }
        no_effects()
    }

    fn on_overlay_key(&mut self, overlay: Overlay, key: KeyEvent) -> (r: Vec<Effect>)
        requires
            overlay@ matches OverlayView::PathEditor { value, cursor } ==> editor::on_boundary(
                value,
                cursor,
            ),
        ensures
            final(self)@ == old(self)@.overlay_pressed(overlay@, key).model,
            old(self)@.well_formed() ==> final(self)@.well_formed(),
            r.deep_view() == old(self)@.overlay_pressed(overlay@, key).effects,
    {
        match overlay {
            Overlay::PathEditor { value, cursor } => self.on_editor_key(value, cursor, key),
            Overlay::ConfirmCancel => self.on_confirm_key(key),
            _ => {
                let closes = match key.code {
                    KeyCode::Esc => true,
                    KeyCode::Enter => true,
                    KeyCode::Char(c) => c == 'q' || c == '?',
                    _ => false,
                };
                if !closes {
                    self.overlay = Some(overlay);
                }
                no_effects()
            },
        }
    }

    fn on_key(&mut self, key: KeyEvent) -> (r: Vec<Effect>)
        requires
            old(self)@.well_formed(),
        ensures
            final(self)@ == old(self)@.on_key(key).model,
            final(self)@.well_formed(),
            r.deep_view() == old(self)@.on_key(key).effects,
    {
        match self.overlay.take() {
            Some(overlay) => self.on_overlay_key(overlay, key),
            None => {
                let copy = match key.code {
                    KeyCode::Char(c) => c == 'c',
                    _ => false,
                };
                if key.control && copy {
                    self.request_cancel()
                } else {
                    self.on_plain_key(key)
                }
            },
        }
    }

    fn on_paste(&mut self, pasted: &str)
        requires
            old(self)@.well_formed(),
        ensures
            final(self)@ == old(self)@.on_paste(pasted@).model,
            final(self)@.well_formed(),
    {
        match self.overlay.take() {
            Some(Overlay::PathEditor { value, cursor }) => {
                let mut value = value;
                let mut cursor: usize = cursor;
                editor::insert_text(&mut value, &mut cursor, pasted);
                self.edit(value, cursor);
            },
            _ => {},
        }
    }

    fn on_discovered(&mut self, result: Result<Vec<FilePath>, DiscoveryError>) -> (r: Vec<Effect>)
        ensures
            final(self)@ == old(self)@.on_discovered(discovered_told(result)).model,
            r.deep_view() == old(self)@.on_discovered(discovered_told(result)).effects,
    {
        let files = match result {
            Ok(files) => files,
            Err(e) => {
                let message = e.message();
                self.log(text::concat2("discovery failed: ", message.as_str()));
                self.overlay = Some(Overlay::Notice(message));
                return no_effects();
            },
        };
        let added = queue::enqueue(
            &mut self.queue,
            self.next_id,
            &files,
            &self.settings.output_directory,
            Interface::Terminal,
        );
        self.next_id = added.0;
        proof {
            assert(self.queue.deep_view().len() == self.queue@.len());
        }
        let count: usize = self.queue.len();
        if self.selected.is_none() && count > 0 {
            self.selected = Some(0);
        }
        self.log(
            text::concat3(
                "queue contains ",
                number::show_usize(count).as_str(),
                " unique MKV file(s)",
            ),
        );
        probe_effects(&added.1)
    }

    fn on_probe(&mut self, id: u64, result: Result<MediaInfo, RuntimeError>)
        ensures
            final(self)@ == old(self)@.on_probe(id, probe_told(result)),
    {
        let index: usize = match queue::find_item(&self.queue, id) {
            Some(i) => i,
            None => {
                return;
            },
        };
        proof {
            assert(self.queue.deep_view()[index as int] == self.queue@[index as int]@);
        }
        let shown = self.queue[index].input.display();
        match result {
            Ok(media) => {
                let planning = self.settings.planning();
                queue::set_media(&mut self.queue, index, media, &planning, Interface::Terminal);
                self.log(text::concat2("probed ", shown.as_str()));
            },
            Err(e) => {
                let message = e.message();
                let mut line = text::concat3("probe failed for ", shown.as_str(), ": ");
                text::push_text(&mut line, message.as_str());
                queue::set_unprobed(&mut self.queue, index, message);
                self.log(line);
            },
        }
    }

    fn on_batch_finished(&mut self, result: Result<BatchReport, SchedulerError>)
        ensures
            final(self)@ == old(self)@.on_batch_finished(report_told(result)),
    {
        self.phase = AppPhase::Idle;
        self.snapshot = None;
        match result {
            Ok(report) => {
                queue::conclude(
                    &mut self.queue,
                    &self.active_queue_ids,
                    report.results(),
                    Interface::Terminal,
                );
                let mut line = text::concat3(
                    "batch complete: ",
                    number::show_usize(report.failure_count()).as_str(),
                    " failure(s), cancelled=",
                );
                if report.cancellation().is_some() {
                    text::push_text(&mut line, "true");
                } else {
                    text::push_text(&mut line, "false");
                }
                self.log(line);
            },
            Err(e) => {
                let message = e.message();
                self.log(text::concat2("scheduler failed: ", message.as_str()));
                self.overlay = Some(Overlay::Notice(message));
            },
        }
        self.active_queue_ids = Vec::new();
        proof {
            assert(self.active_queue_ids@ =~= Seq::<u64>::empty());
        }
    }

    fn on_snapshot(&mut self, snapshot: BatchSnapshot)
        ensures
            final(self)@ == old(self)@.on_snapshot(snapshot@),
    {
        queue::show_files(&mut self.queue, &self.active_queue_ids, snapshot.files());
        self.snapshot = Some(snapshot);
    }

    fn on_batch_event(&mut self, event: BatchEvent)
        ensures
            final(self)@ == old(self)@.on_batch_event(event@),
    {
        match show_event(&event) {
            Some(line) => self.log(line),
            None => {},
        }
    }

    fn on_lag(&mut self, count: u64)
        ensures
            final(self)@ == old(self)@.updated(MsgView::EventsLagged(count)).model,
    {
        self.log(
            text::concat3(
                "event receiver lagged by ",
                number::show_u64(count).as_str(),
                "; recovered from the latest snapshot",
            ),
        );
    }

    fn on_task_failed(&mut self, reason: String) -> (r: Vec<Effect>)
        ensures
            final(self)@ == old(self)@.on_task_failed(reason@).model,
            r.deep_view() == old(self)@.on_task_failed(reason@).effects,
    {
        self.log(reason.clone());
        self.overlay = Some(Overlay::Notice(reason));
        match self.phase {
            AppPhase::Running => {
                self.phase = AppPhase::Cancelling;
                one_effect(Effect::CancelBatch)
            },
            _ => no_effects(),
        }
    }

    /// Takes something that was heard of, and tells what is asked for.
    #[verifier::rlimit(40)]
    pub fn update(&mut self, message: Msg) -> (r: Vec<Effect>)
        requires
            old(self)@.well_formed(),
        ensures
            final(self)@ == old(self)@.updated(message@).model,
            final(self)@.well_formed(),
            r.deep_view() == old(self)@.updated(message@).effects,
    {
        match message {
            Msg::Input(key) => {
                if key.pressed {
                    return self.on_key(key);
                }
            },
            Msg::Paste(value) => {
                self.on_paste(value.as_str());
            },
            Msg::Resize => {},
            Msg::Tick => {},
            Msg::InputsDiscovered(result) => {
                return self.on_discovered(result);
            },
            Msg::ProbeFinished(id, result) => {
                self.on_probe(id, result);
            },
            Msg::BatchSnapshot(snapshot) => {
                self.on_snapshot(snapshot);
            },
            Msg::BatchEvent(event) => {
                self.on_batch_event(event);
            },
            Msg::EventsLagged(count) => {
                self.on_lag(count);
            },
            Msg::TaskFailed(reason) => {
                return self.on_task_failed(reason);
            },
            Msg::BatchFinished(result) => {
                self.on_batch_finished(result);
            },
        }
        no_effects()
    }

    /// Gives the enabled files to a batch.
    pub fn build_batch(&mut self) -> (r: Result<BatchRequest, String>)
        ensures
            final(self)@ == old(self)@.batch_built().0,
            session::text_result(r) == old(self)@.batch_built().1,
    {
        let target = match self.settings.target() {
            Ok(target) => target,
            Err(message) => {
                return Err(message);
            },
        };
        let output_mode = match self.settings.output_mode() {
            Ok(mode) => mode,
            Err(message) => {
                return Err(message);
            },
        };
        let policy = self.settings.policy();
        let given = queue::start(
            &mut self.queue,
            &policy,
            target,
            output_mode,
            self.settings.action_remux,
            Interface::Terminal,
        );
        self.active_queue_ids = given.0;
        if self.settings.jobs == 0 {
            return Err("scheduler jobs must be greater than zero".to_owned());
        }
        let options = match SchedulerOptions::new(
            self.settings.jobs,
            self.settings.failure_policy,
            self.settings.dry_run,
        ) {
            Ok(options) => options,
            Err(e) => {
                return Err(e.message());
            },
        };
        self.phase = AppPhase::Running;
        Ok(BatchRequest::new(given.1, options))
    }

    /// Gives the enabled files to a batch, or shows why there is none.
    pub fn begin_batch(&mut self) -> (r: Option<BatchRequest>)
        ensures
            final(self)@ == old(self)@.batch_begun().0,
            match r {
                Some(request) => old(self)@.batch_begun().1 == Some(request@),
                None => old(self)@.batch_begun().1 is None,
            },
    {
        match self.build_batch() {
            Ok(request) => Some(request),
            Err(message) => {
                self.phase = AppPhase::Idle;
                self.overlay = Some(Overlay::Notice(message));
                None
            },
        }
    }
}

} // verus!
