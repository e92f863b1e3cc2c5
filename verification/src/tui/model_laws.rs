//! What holds of the terminal interface, whatever it hears of.
use vstd::prelude::*;

use crate::queue;
use crate::queue::{Interface, ItemView};
use crate::runtime::batch::{FileResultView, FileStateView};
use crate::tui::model::{
    AppPhase, EffectView, KeyCode, KeyEvent, ModelView, MsgView, OverlayView, LOG_CAPACITY,
};
use crate::tui::settings::UiSettingsView;

verus! {

/// As long as a batch is not over, the interface is not left.
pub proof fn law_active_work_is_not_left(m: ModelView, message: MsgView)
    requires
        m.phase != AppPhase::Idle,
        !m.should_quit,
    ensures
        !m.updated(message).model.should_quit,
{
}

/// A batch is asked for only where one can be started: nothing is going on, some file is enabled
/// and no enabled file waits or has failed.
pub proof fn law_batches_start_when_ready(m: ModelView, message: MsgView)
    requires
        m.updated(message).effects.contains(EffectView::StartBatch),
    ensures
        m.phase == AppPhase::Idle,
        queue::startable(m.queue),
{
    let effects = m.updated(message).effects;
    let k = choose|k: int| 0 <= k < effects.len() && effects[k] == EffectView::StartBatch;
    assert(effects[k] == EffectView::StartBatch);
}

/// A cancellation is asked for only of a batch that runs, which is then being cancelled.
pub proof fn law_running_batches_are_cancelled_once(m: ModelView, message: MsgView)
    requires
        m.updated(message).effects.contains(EffectView::CancelBatch),
    ensures
        m.phase == AppPhase::Running,
        m.updated(message).model.phase == AppPhase::Cancelling,
{
    let effects = m.updated(message).effects;
    let k = choose|k: int| 0 <= k < effects.len() && effects[k] == EffectView::CancelBatch;
    assert(effects[k] == EffectView::CancelBatch);
}

/// The settings but for which one is selected.
pub open spec fn same_choices(a: UiSettingsView, b: UiSettingsView) -> bool {
    b == UiSettingsView { selected_field: b.selected_field, ..a }
}

proof fn lemma_char_keeps_settings(m: ModelView, c: char)
    requires
        m.phase != AppPhase::Idle,
    ensures
        same_choices(m.settings, m.char_pressed(c).model.settings),
{
}

proof fn lemma_key_keeps_settings(m: ModelView, key: KeyEvent)
    requires
        m.phase != AppPhase::Idle,
    ensures
        same_choices(m.settings, m.key_pressed(key).model.settings),
{
    if let KeyCode::Char(c) = key.code {
        lemma_char_keeps_settings(m, c);
    }
}

proof fn lemma_overlay_keeps_settings(m: ModelView, overlay: OverlayView, key: KeyEvent)
    ensures
        m.overlay_pressed(overlay, key).model.settings == m.settings,
{
    if let OverlayView::PathEditor { value, cursor } = overlay {
        assert(m.editor_pressed(value, cursor, key).model.settings == m.settings);
    }
}

proof fn lemma_input_keeps_settings(m: ModelView, key: KeyEvent)
    requires
        m.phase != AppPhase::Idle,
    ensures
        same_choices(m.settings, m.on_key(key).model.settings),
{
    match m.overlay {
        Some(overlay) => lemma_overlay_keeps_settings(
            ModelView { overlay: None, ..m },
            overlay,
            key,
        ),
        None => lemma_key_keeps_settings(m, key),
    }
}

/// The settings that plans depend on do not change while a batch is not over.
pub proof fn law_settings_rest_during_a_batch(m: ModelView, message: MsgView)
    requires
        m.phase != AppPhase::Idle,
    ensures
        same_choices(m.settings, m.updated(message).model.settings),
{
    if let MsgView::Input(key) = message {
        lemma_input_keeps_settings(m, key);
    } else {
        assert(m.updated(message).model.settings == m.settings);
    }
}

/// Whether the selection is a file of the queue.
pub open spec fn selection_valid(m: ModelView) -> bool {
    m.selected matches Some(i) ==> i < m.queue.len()
}

proof fn lemma_shown_len(queue: Seq<ItemView>, active: Seq<u64>, files: Seq<FileStateView>)
    ensures
        queue::shown(queue, active, files).len() == queue.len(),
    decreases files.len(),
{
    if files.len() > 0 {
        lemma_shown_len(queue, active, files.drop_last());
        let before = queue::shown(queue, active, files.drop_last());
        let place = files.last().id;
        if place < active.len() {
            queue::lemma_index_of(before, active[place as int], 0);
        }
    }
}

proof fn lemma_concluded_len(
    queue: Seq<ItemView>,
    active: Seq<u64>,
    results: Seq<FileResultView>,
    interface: Interface,
)
    ensures
        queue::concluded(queue, active, results, interface).len() == queue.len(),
    decreases results.len(),
{
    if results.len() > 0 {
        lemma_concluded_len(queue, active, results.drop_last(), interface);
        let before = queue::concluded(queue, active, results.drop_last(), interface);
        let place = results.last().id;
        if place < active.len() {
            queue::lemma_index_of(before, active[place as int], 0);
        }
    }
}

proof fn lemma_enqueued_len(
    queue: Seq<ItemView>,
    next_id: u64,
    inputs: Seq<Seq<u8>>,
    directory: Option<Seq<u8>>,
)
    ensures
        queue::enqueued(queue, next_id, inputs, directory, Interface::Terminal).queue.len()
            >= queue.len(),
    decreases inputs.len(),
{
    if inputs.len() > 0 {
        lemma_enqueued_len(queue, next_id, inputs.drop_last(), directory);
    }
}

proof fn lemma_char_keeps_selection(m: ModelView, c: char)
    requires
        selection_valid(m),
        m.queue.len() <= usize::MAX,
    ensures
        selection_valid(m.char_pressed(c).model),
{
    if c == 'd' {
        assert(selection_valid(m.removed()));
    } else if c == ' ' {
        assert(selection_valid(m.toggled()));
    } else if c == 'j' || c == 'k' {
        assert(selection_valid(m.moved(c == 'k')));
    } else if c == 'h' || c == 'l' {
        assert(selection_valid(m.changed(c == 'h')));
    } else if c == 'r' {
        assert(selection_valid(m.retried().model));
    }
}

proof fn lemma_key_keeps_selection(m: ModelView, key: KeyEvent)
    requires
        selection_valid(m),
        m.queue.len() <= usize::MAX,
    ensures
        selection_valid(m.key_pressed(key).model),
{
    match key.code {
        KeyCode::Char(c) => lemma_char_keeps_selection(m, c),
        KeyCode::Down => assert(selection_valid(m.moved(false))),
        KeyCode::Up => assert(selection_valid(m.moved(true))),
        KeyCode::Left => assert(selection_valid(m.changed(true))),
        KeyCode::Right => assert(selection_valid(m.changed(false))),
        KeyCode::Enter => assert(selection_valid(m.changed(false))),
        _ => {},
    }
}

proof fn lemma_overlay_keeps_queue(m: ModelView, overlay: OverlayView, key: KeyEvent)
    ensures
        m.overlay_pressed(overlay, key).model.queue == m.queue,
        m.overlay_pressed(overlay, key).model.selected == m.selected,
{
    if let OverlayView::PathEditor { value, cursor } = overlay {
        assert(m.editor_pressed(value, cursor, key).model.queue == m.queue);
        assert(m.editor_pressed(value, cursor, key).model.selected == m.selected);
    }
}

/// The selection stays a file of the queue.
pub proof fn law_selection_stays_valid(m: ModelView, message: MsgView)
    requires
        selection_valid(m),
        m.queue.len() <= usize::MAX,
    ensures
        selection_valid(m.updated(message).model),
{
    match message {
        MsgView::Input(key) => match m.overlay {
            Some(overlay) => lemma_overlay_keeps_queue(
                ModelView { overlay: None, ..m },
                overlay,
                key,
            ),
            None => lemma_key_keeps_selection(m, key),
        },
        MsgView::BatchSnapshot(snapshot) => {
            lemma_shown_len(m.queue, m.active_queue_ids, snapshot.files);
        },
        MsgView::BatchFinished(Ok(report)) => {
            lemma_concluded_len(
                m.queue,
                m.active_queue_ids,
                report.results,
                Interface::Terminal,
            );
        },
        MsgView::InputsDiscovered(Ok(files)) => {
            lemma_enqueued_len(m.queue, m.next_id, files, m.settings.output_directory);
        },
        MsgView::ProbeFinished(id, _) => {
            queue::lemma_index_of(m.queue, id, 0);
        },
        _ => {},
    }
}

proof fn lemma_char_bounds_messages(m: ModelView, c: char)
    requires
        m.logs.len() <= LOG_CAPACITY,
    ensures
        m.char_pressed(c).model.logs.len() <= LOG_CAPACITY,
{
    assert(m.cancel_requested().model.logs.len() <= LOG_CAPACITY);
}

proof fn lemma_key_bounds_messages(m: ModelView, key: KeyEvent)
    requires
        m.logs.len() <= LOG_CAPACITY,
    ensures
        m.on_key(key).model.logs.len() <= LOG_CAPACITY,
{
    match m.overlay {
        Some(overlay) => {
            let shut = ModelView { overlay: None, ..m };
            assert(shut.cancel_requested().model.logs.len() <= LOG_CAPACITY);
            if let OverlayView::PathEditor { value, cursor } = overlay {
                assert(shut.editor_pressed(value, cursor, key).model.logs == m.logs);
            }
        },
        None => {
            assert(m.cancel_requested().model.logs.len() <= LOG_CAPACITY);
            if let KeyCode::Char(c) = key.code {
                lemma_char_bounds_messages(m, c);
            }
        },
    }
}

/// Never more messages are kept than there is room for.
pub proof fn law_messages_are_bounded(m: ModelView, message: MsgView)
    requires
        m.logs.len() <= LOG_CAPACITY,
    ensures
        m.updated(message).model.logs.len() <= LOG_CAPACITY,
{
    if let MsgView::Input(key) = message {
        lemma_key_bounds_messages(m, key);
    }
}

/// The end of a batch lets everything be done again, whatever became of it.
pub proof fn law_a_finished_batch_is_over(m: ModelView, message: MsgView)
    requires
        message is BatchFinished,
    ensures
        m.updated(message).model.phase == AppPhase::Idle,
        m.updated(message).model.snapshot is None,
        m.updated(message).model.active_queue_ids.len() == 0,
{
}

} // verus!
