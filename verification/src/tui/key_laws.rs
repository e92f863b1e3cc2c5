//! What holds of keys, of what is typed and of what the terminal interface hears of.
use vstd::prelude::*;
use vstd::utf8::*;

use crate::media::MediaInfoView;
use crate::queue;
use crate::queue::{Interface, ItemView, QueueStatus};
use crate::runtime::batch::{BatchReportView, SnapshotView};
use crate::runtime::error::RuntimeErrorView;
use crate::session;
use crate::text;
use crate::tui::editor;
use crate::tui::model::{
    AppPhase, EffectView, KeyCode, KeyEvent, ModelView, MsgView, OverlayView, Reaction, Screen,
};

verus! {

/// What comes of a key that is pressed.
#[verifier::opaque]
pub open spec fn pressed(m: ModelView, code: KeyCode) -> Reaction {
    m.updated(MsgView::Input(KeyEvent { code, control: false, pressed: true }))
}

/// Whether a key changes nothing but what is said here, and asks for nothing.
pub open spec fn comes_to(r: Reaction, m: ModelView) -> bool {
    r.model == m && r.effects.len() == 0
}

proof fn lemma_key(m: ModelView, code: KeyCode)
    requires
        m.overlay is None,
    ensures
        pressed(m, code) == m.key_pressed(KeyEvent { code, control: false, pressed: true }),
{
    reveal(pressed);
}

proof fn lemma_char(m: ModelView, c: char)
    requires
        m.overlay is None,
    ensures
        pressed(m, KeyCode::Char(c)) == m.char_pressed(c),
{
    reveal(pressed);
}

proof fn lemma_overlay(m: ModelView, code: KeyCode)
    requires
        m.overlay is Some,
    ensures
        pressed(m, code) == (ModelView { overlay: None, ..m }).overlay_pressed(
            m.overlay->0,
            KeyEvent { code, control: false, pressed: true },
        ),
{
    reveal(pressed);
}

/// Keys that are let go, changes of size and ticks change nothing.
pub proof fn law_quiet_messages(m: ModelView, code: KeyCode, control: bool)
    ensures
        comes_to(m.updated(MsgView::Input(KeyEvent { code, control, pressed: false })), m),
        comes_to(m.updated(MsgView::Resize), m),
        comes_to(m.updated(MsgView::Tick), m),
{
}

/// The digits go to the screens.
pub proof fn law_digits_choose_screens(m: ModelView)
    requires
        m.overlay is None,
    ensures
        comes_to(pressed(m, KeyCode::Char('1')), ModelView { screen: Screen::Queue, ..m }),
        comes_to(pressed(m, KeyCode::Char('2')), ModelView { screen: Screen::Tracks, ..m }),
        comes_to(pressed(m, KeyCode::Char('3')), ModelView { screen: Screen::Logs, ..m }),
        comes_to(pressed(m, KeyCode::Char('4')), ModelView { screen: Screen::Settings, ..m }),
{
    lemma_char(m, '1');
    lemma_char(m, '2');
    lemma_char(m, '3');
    lemma_char(m, '4');
}

/// The tabulator goes through the screens in their order, round and round, and back.
pub proof fn law_the_tabulator_goes_through_screens(m: ModelView)
    requires
        m.overlay is None,
    ensures
        m.screen == Screen::Queue ==> pressed(m, KeyCode::Tab).model.screen == Screen::Tracks,
        m.screen == Screen::Tracks ==> pressed(m, KeyCode::Tab).model.screen == Screen::Logs,
        m.screen == Screen::Logs ==> pressed(m, KeyCode::Tab).model.screen == Screen::Settings,
        m.screen == Screen::Settings ==> pressed(m, KeyCode::Tab).model.screen == Screen::Queue,
        m.screen == Screen::Queue ==> pressed(m, KeyCode::BackTab).model.screen
            == Screen::Settings,
        m.screen == Screen::Tracks ==> pressed(m, KeyCode::BackTab).model.screen == Screen::Queue,
        m.screen == Screen::Logs ==> pressed(m, KeyCode::BackTab).model.screen == Screen::Tracks,
        m.screen == Screen::Settings ==> pressed(m, KeyCode::BackTab).model.screen == Screen::Logs,
{
    lemma_key(m, KeyCode::Tab);
    lemma_key(m, KeyCode::BackTab);
}

/// `?` shows help, `a` asks for a path where nothing is going on, and `q` leaves then; during a batch
/// it asks whether to cancel.
pub proof fn law_keys_open_windows(m: ModelView)
    requires
        m.overlay is None,
    ensures
        comes_to(
            pressed(m, KeyCode::Char('?')),
            ModelView { overlay: Some(OverlayView::Help), ..m },
        ),
        m.phase == AppPhase::Idle ==> comes_to(
            pressed(m, KeyCode::Char('a')),
            ModelView {
                overlay: Some(OverlayView::PathEditor { value: Seq::empty(), cursor: 0 }),
                ..m
            },
        ),
        m.phase != AppPhase::Idle ==> comes_to(pressed(m, KeyCode::Char('a')), m),
        m.phase == AppPhase::Idle ==> comes_to(
            pressed(m, KeyCode::Char('q')),
            ModelView { should_quit: true, ..m },
        ),
        m.phase != AppPhase::Idle ==> comes_to(
            pressed(m, KeyCode::Char('q')),
            ModelView { overlay: Some(OverlayView::ConfirmCancel), ..m },
        ),
{
    lemma_char(m, '?');
    lemma_char(m, 'a');
    lemma_char(m, 'q');
}

/// `s` asks for a batch on the screen of the queue where one can begin, and else says why not.
pub proof fn law_starting_a_batch(m: ModelView)
    requires
        m.overlay is None,
        m.screen == Screen::Queue,
    ensures
        ({
            let r = pressed(m, KeyCode::Char('s'));
            let able = m.phase == AppPhase::Idle && queue::startable(m.queue);
            &&& able ==> r.effects == seq![EffectView::StartBatch] && r.model == m
            &&& !able ==> r.effects.len() == 0 && r.model.overlay is Some && r.model.overlay->0
                is Notice
            &&& m.phase != AppPhase::Idle ==> r.model.overlay == Some(
                OverlayView::Notice("a batch is already active"@),
            )
            &&& m.phase == AppPhase::Idle && !queue::some_enabled(m.queue) ==> r.model.overlay
                == Some(OverlayView::Notice("enable at least one queue item before starting"@))
        }),
{
    lemma_char(m, 's');
}

/// `c`, alone or with control, cancels a batch that runs and nothing else.
pub proof fn law_cancelling_a_batch(m: ModelView, control: bool)
    requires
        m.overlay is None,
    ensures
        ({
            let r = m.updated(
                MsgView::Input(KeyEvent { code: KeyCode::Char('c'), control, pressed: true }),
            );
            &&& m.phase == AppPhase::Running ==> r.effects == seq![EffectView::CancelBatch]
                && r.model.phase == AppPhase::Cancelling && r.model.queue == m.queue
            &&& m.phase != AppPhase::Running ==> comes_to(r, m)
        }),
{
}

/// A question whether to cancel is answered by `y` or enter, and taken back by `n`, `q` or escape.
pub proof fn law_confirming_a_cancellation(m: ModelView)
    requires
        m.overlay == Some(OverlayView::ConfirmCancel),
        m.phase == AppPhase::Running,
    ensures
        pressed(m, KeyCode::Char('y')).effects == seq![EffectView::CancelBatch],
        pressed(m, KeyCode::Enter).effects == seq![EffectView::CancelBatch],
        comes_to(pressed(m, KeyCode::Char('n')), ModelView { overlay: None, ..m }),
        comes_to(pressed(m, KeyCode::Char('q')), ModelView { overlay: None, ..m }),
        comes_to(pressed(m, KeyCode::Esc), ModelView { overlay: None, ..m }),
        comes_to(pressed(m, KeyCode::Other), m),
{
    lemma_overlay(m, KeyCode::Char('y'));
    lemma_overlay(m, KeyCode::Enter);
    lemma_overlay(m, KeyCode::Char('n'));
    lemma_overlay(m, KeyCode::Char('q'));
    lemma_overlay(m, KeyCode::Esc);
    lemma_overlay(m, KeyCode::Other);
}

/// A message or the help is closed by escape, enter, `q` or `?`, and by nothing else.
pub proof fn law_closing_a_message(m: ModelView, c: char)
    requires
        m.overlay is Some,
        m.overlay->0 is Help || m.overlay->0 is Notice,
    ensures
        ({
            let closed = ModelView { overlay: None, ..m };
            &&& comes_to(pressed(m, KeyCode::Esc), closed)
            &&& comes_to(pressed(m, KeyCode::Enter), closed)
            &&& c == 'q' || c == '?' ==> comes_to(pressed(m, KeyCode::Char(c)), closed)
            &&& c != 'q' && c != '?' ==> comes_to(pressed(m, KeyCode::Char(c)), m)
            &&& comes_to(pressed(m, KeyCode::Tab), m)
        }),
{
    lemma_overlay(m, KeyCode::Esc);
    lemma_overlay(m, KeyCode::Enter);
    lemma_overlay(m, KeyCode::Char(c));
    lemma_overlay(m, KeyCode::Tab);
}

/// On the screen of the queue `d` takes the selected file out of the queue, and the blank enables or
/// disables it, where nothing is going on.
pub proof fn law_keys_change_the_queue(m: ModelView, i: usize)
    requires
        m.overlay is None,
        m.screen == Screen::Queue,
        m.phase == AppPhase::Idle,
        m.selected == Some(i),
        i < m.queue.len() <= usize::MAX,
    ensures
        pressed(m, KeyCode::Char('d')).model.queue == m.queue.remove(i as int),
        m.queue.len() == 1 ==> pressed(m, KeyCode::Char('d')).model.selected is None,
        i < m.queue.len() - 1 ==> pressed(m, KeyCode::Char('d')).model.selected == Some(i),
        i == m.queue.len() - 1 && i > 0 ==> pressed(m, KeyCode::Char('d')).model.selected == Some(
            (i - 1) as usize,
        ),
        pressed(m, KeyCode::Char(' ')).model.queue == m.queue.update(
            i as int,
            ItemView { enabled: !m.queue[i as int].enabled, ..m.queue[i as int] },
        ),
        pressed(m, KeyCode::Char(' ')).model.selected == m.selected,
{
    lemma_char(m, 'd');
    lemma_char(m, ' ');
}

/// `r` tries every file again that failed or was cancelled, and asks for the inspections that this
/// takes.
pub proof fn law_retrying_files(m: ModelView, k: int)
    requires
        m.overlay is None,
        m.phase == AppPhase::Idle,
    ensures
        ({
            let r = pressed(m, KeyCode::Char('r'));
            let again = queue::reprobed(m.queue, None);
            &&& r.model.queue == queue::rebuilt(
                queue::retried(m.queue, None),
                m.settings.planning(),
                Interface::Terminal,
            )
            &&& r.effects.len() == again.len()
            &&& 0 <= k < again.len() ==> r.effects[k] == EffectView::Probe(again[k].0, again[k].1)
        }),
{
    lemma_char(m, 'r');
}

/// `j` and down go to the next file, `k` and up to the one before, `g` to the first and `G` to the
/// last.
pub proof fn law_keys_move_the_selection(m: ModelView, i: usize)
    requires
        m.overlay is None,
        m.screen != Screen::Settings,
        m.selected == Some(i),
        i < m.queue.len() <= usize::MAX,
    ensures
        pressed(m, KeyCode::Char('j')) == pressed(m, KeyCode::Down),
        pressed(m, KeyCode::Char('k')) == pressed(m, KeyCode::Up),
        i < m.queue.len() - 1 ==> pressed(m, KeyCode::Down).model.selected == Some(
            (i + 1) as usize,
        ),
        i == m.queue.len() - 1 ==> pressed(m, KeyCode::Down).model.selected == Some(i),
        i > 0 ==> pressed(m, KeyCode::Up).model.selected == Some((i - 1) as usize),
        i == 0 ==> pressed(m, KeyCode::Up).model.selected == Some(0usize),
        pressed(m, KeyCode::Char('g')).model.selected == Some(0usize),
        pressed(m, KeyCode::Char('G')).model.selected == Some((m.queue.len() - 1) as usize),
        pressed(m, KeyCode::Down).model.queue == m.queue,
{
    lemma_char(m, 'j');
    lemma_key(m, KeyCode::Down);
    lemma_char(m, 'k');
    lemma_key(m, KeyCode::Up);
    lemma_char(m, 'g');
    lemma_char(m, 'G');
}

/// On the screen of the settings the same keys go through the ten fields.
pub proof fn law_keys_go_through_the_settings(m: ModelView)
    requires
        m.overlay is None,
        m.screen == Screen::Settings,
        m.settings.selected_field < 10,
    ensures
        ({
            let field = m.settings.selected_field;
            &&& field < 9 ==> pressed(m, KeyCode::Down).model.settings.selected_field == field + 1
            &&& field == 9 ==> pressed(m, KeyCode::Down).model.settings.selected_field == 9
            &&& field > 0 ==> pressed(m, KeyCode::Up).model.settings.selected_field == field - 1
            &&& pressed(m, KeyCode::Char('g')).model.settings.selected_field == 0
            &&& pressed(m, KeyCode::Char('G')).model.settings.selected_field == 9
        }),
{
    lemma_key(m, KeyCode::Down);
    lemma_key(m, KeyCode::Up);
    lemma_char(m, 'g');
    lemma_char(m, 'G');
}

/// Left and right change the selected field where nothing is going on, and every plan is made anew.
pub proof fn law_arrows_change_the_settings(m: ModelView)
    requires
        m.overlay is None,
        m.screen == Screen::Settings,
    ensures
        ({
            &&& m.phase == AppPhase::Idle ==> pressed(m, KeyCode::Left).model.settings
                == m.settings.changed(true)
            &&& m.phase == AppPhase::Idle ==> pressed(m, KeyCode::Right).model.settings
                == m.settings.changed(false)
            &&& m.phase == AppPhase::Idle ==> pressed(m, KeyCode::Right).model.queue
                == queue::rebuilt(
                m.queue,
                m.settings.changed(false).planning(),
                Interface::Terminal,
            )
            &&& m.phase != AppPhase::Idle ==> comes_to(pressed(m, KeyCode::Right), m)
        }),
{
    lemma_key(m, KeyCode::Left);
    lemma_key(m, KeyCode::Right);
}

/// `h`, `l` and enter change the settings as left and right do.
pub proof fn law_letters_change_the_settings(m: ModelView)
    requires
        m.overlay is None,
        m.screen == Screen::Settings,
    ensures
        pressed(m, KeyCode::Char('h')) == pressed(m, KeyCode::Left),
        pressed(m, KeyCode::Char('l')) == pressed(m, KeyCode::Right),
        pressed(m, KeyCode::Enter) == pressed(m, KeyCode::Right),
{
    lemma_char(m, 'h');
    lemma_key(m, KeyCode::Left);
    lemma_char(m, 'l');
    lemma_key(m, KeyCode::Right);
    lemma_key(m, KeyCode::Enter);
}

/// The model with this text in the editor.
pub open spec fn typing(m: ModelView, value: Seq<char>, cursor: usize) -> ModelView {
    ModelView { overlay: Some(OverlayView::PathEditor { value, cursor }), ..m }
}

/// What is in the editor after a key, if it is still there.
pub open spec fn typed(r: Reaction) -> Seq<char> {
    match r.model.overlay {
        Some(OverlayView::PathEditor { value, .. }) => value,
        _ => Seq::empty(),
    }
}

proof fn lemma_cursor(before: Seq<char>, after: Seq<char>, cursor: usize)
    requires
        editor::size(before) == cursor,
    ensures
        editor::column(before + after, cursor) == before.len(),
        (before + after).take(before.len() as int) == before,
        (before + after).skip(before.len() as int) == after,
{
    let s = before + after;
    let k = before.len() as int;
    assert(s.take(k) =~= before);
    assert(s.skip(k) =~= after);
    editor::law_column_is_unique(s, cursor, k);
}

proof fn lemma_editor_pressed(m: ModelView, value: Seq<char>, cursor: usize, code: KeyCode)
    ensures
        pressed(typing(m, value, cursor), code) == (ModelView { overlay: None, ..m }).editor_pressed(
            value,
            cursor,
            KeyEvent { code, control: false, pressed: true },
        ),
{
    lemma_overlay(typing(m, value, cursor), code);
}

/// A character that is typed goes in before the cursor.
pub proof fn law_typed_characters_go_in(
    m: ModelView,
    before: Seq<char>,
    after: Seq<char>,
    cursor: usize,
    c: char,
)
    requires
        editor::size(before) == cursor,
    ensures
        typed(pressed(typing(m, before + after, cursor), KeyCode::Char(c))) == before.push(c)
            + after,
{
    lemma_cursor(before, after, cursor);
    lemma_editor_pressed(m, before + after, cursor, KeyCode::Char(c));
    assert(before + seq![c] + after =~= before.push(c) + after);
}

/// Backspace takes away what stands before the cursor.
pub proof fn law_backspace(m: ModelView, before: Seq<char>, after: Seq<char>, cursor: usize)
    requires
        editor::size(before) == cursor,
    ensures
        ({
            let r = pressed(typing(m, before + after, cursor), KeyCode::Backspace);
            &&& before.len() > 0 ==> typed(r) == before.drop_last() + after
            &&& before.len() == 0 ==> typed(r) == after
        }),
{
    lemma_cursor(before, after, cursor);
    lemma_editor_pressed(m, before + after, cursor, KeyCode::Backspace);
    let s = before + after;
    let k = before.len() as int;
    if k > 0 {
        assert(s.remove(k - 1) =~= before.drop_last() + after);
    } else {
        assert(s =~= after);
    }
}

/// Delete takes away what stands behind the cursor.
pub proof fn law_delete(m: ModelView, before: Seq<char>, after: Seq<char>, cursor: usize)
    requires
        editor::size(before) == cursor,
    ensures
        ({
            let r = pressed(typing(m, before + after, cursor), KeyCode::Delete);
            &&& after.len() > 0 ==> typed(r) == before + after.drop_first()
            &&& after.len() == 0 ==> typed(r) == before
        }),
{
    lemma_cursor(before, after, cursor);
    lemma_editor_pressed(m, before + after, cursor, KeyCode::Delete);
    let s = before + after;
    let k = before.len() as int;
    if after.len() > 0 {
        assert(s.remove(k) =~= before + after.drop_first());
    } else {
        assert(s =~= before);
    }
}

/// Arrows, home and end leave the text as it is, and escape gives it up.
pub proof fn law_the_cursor_moves_alone(m: ModelView, value: Seq<char>, cursor: usize)
    ensures
        ({
            let e = typing(m, value, cursor);
            &&& typed(pressed(e, KeyCode::Left)) == value
            &&& typed(pressed(e, KeyCode::Right)) == value
            &&& typed(pressed(e, KeyCode::Home)) == value
            &&& typed(pressed(e, KeyCode::End)) == value
            &&& comes_to(pressed(e, KeyCode::Esc), ModelView { overlay: None, ..m })
        }),
{
    lemma_editor_pressed(m, value, cursor, KeyCode::Left);
    lemma_editor_pressed(m, value, cursor, KeyCode::Right);
    lemma_editor_pressed(m, value, cursor, KeyCode::Home);
    lemma_editor_pressed(m, value, cursor, KeyCode::End);
    lemma_editor_pressed(m, value, cursor, KeyCode::Esc);
}

/// What is pasted goes in at the cursor.
pub proof fn law_pasted_text_goes_in(
    m: ModelView,
    before: Seq<char>,
    after: Seq<char>,
    cursor: usize,
    pasted: Seq<char>,
)
    requires
        editor::size(before) == cursor,
    ensures
        typed(typing(m, before + after, cursor).updated(MsgView::Paste(pasted))) == before + pasted
            + after,
{
    let s = before + after;
    let k = before.len() as int;
    assert(s.take(k) =~= before);
    assert(s.skip(k) =~= after);
    editor::law_column_is_unique(s, cursor, k);
    assert(editor::put_in(s, k, pasted) =~= before + pasted + after);
}

/// Enter looks for files at the path that was typed; a blank one is refused with a message.
pub proof fn law_typed_paths_are_looked_for(m: ModelView, value: Seq<char>, cursor: usize)
    ensures
        ({
            let r = pressed(typing(m, value, cursor), KeyCode::Enter);
            &&& text::trim(value).len() > 0 ==> r.effects.len() == 1 && r.model.overlay is None
            &&& text::trim(value).len() > 0 ==> r.effects[0] is Discover
                && r.effects[0]->Discover_0.roots == seq![encode_utf8(value)]
                && r.effects[0]->Discover_0.recursive == m.discovery_template.recursive
            &&& text::trim(value).len() == 0 ==> r.effects.len() == 0 && r.model.overlay is Some
                && r.model.overlay->0 is Notice
        }),
{
    lemma_editor_pressed(m, value, cursor, KeyCode::Enter);
}

/// Files that were found join the queue, the first one is selected where none was, and those that are
/// new are inspected.
pub proof fn law_found_files_join_the_queue(m: ModelView, files: Seq<Seq<u8>>, k: int)
    ensures
        ({
            let r = m.updated(MsgView::InputsDiscovered(Ok(files)));
            let joined = queue::enqueued(
                m.queue,
                m.next_id,
                files,
                m.settings.output_directory,
                Interface::Terminal,
            );
            &&& r.model.queue == joined.queue
            &&& r.model.next_id == joined.next_id
            &&& m.selected is Some ==> r.model.selected == m.selected
            &&& m.selected is None && joined.queue.len() > 0 ==> r.model.selected == Some(0usize)
            &&& r.effects.len() == joined.fresh.len()
            &&& 0 <= k < joined.fresh.len() ==> r.effects[k] == EffectView::Probe(
                joined.fresh[k].0,
                joined.fresh[k].1,
            )
        }),
{
}

/// What came of an inspection belongs to its file alone.
pub proof fn law_terminal_inspections(
    m: ModelView,
    id: u64,
    result: Result<MediaInfoView, RuntimeErrorView>,
    i: int,
)
    requires
        0 <= i < m.queue.len(),
    ensures
        ({
            let r = m.updated(MsgView::ProbeFinished(id, result));
            let found = queue::index_of(m.queue, id, 0) == Some(i);
            &&& r.effects.len() == 0
            &&& r.model.queue.len() == m.queue.len()
            &&& !found ==> r.model.queue[i] == m.queue[i]
            &&& found && result is Ok ==> r.model.queue[i] == queue::replanned_item(
                ItemView { media: Some(result->Ok_0), ..m.queue[i] },
                m.settings.planning(),
                Interface::Terminal,
            )
            &&& found && result is Err ==> r.model.queue[i].status == QueueStatus::Failed
                && r.model.queue[i].error == Some(result->Err_0.message())
        }),
{
    queue::lemma_index_of(m.queue, id, 0);
}

/// A running batch is shown; one that is over leaves nothing but its results.
pub proof fn law_terminal_batches(m: ModelView, snapshot: SnapshotView, report: BatchReportView)
    ensures
        m.updated(MsgView::BatchSnapshot(snapshot)).model.snapshot == Some(snapshot),
        m.updated(MsgView::BatchSnapshot(snapshot)).model.queue == queue::shown(
            m.queue,
            m.active_queue_ids,
            snapshot.files,
        ),
        m.updated(MsgView::BatchFinished(Ok(report))).model.phase == AppPhase::Idle,
        m.updated(MsgView::BatchFinished(Ok(report))).model.snapshot is None,
        m.updated(MsgView::BatchFinished(Ok(report))).model.queue == queue::concluded(
            m.queue,
            m.active_queue_ids,
            report.results,
            Interface::Terminal,
        ),
{
}

/// A task that fails is told of; a batch that runs is then cancelled.
pub proof fn law_failed_tasks_are_told(m: ModelView, message: Seq<char>)
    ensures
        ({
            let r = m.updated(MsgView::TaskFailed(message));
            &&& r.model.overlay == Some(OverlayView::Notice(message))
            &&& m.phase == AppPhase::Running ==> r.model.phase == AppPhase::Cancelling
                && r.effects == seq![EffectView::CancelBatch]
            &&& m.phase != AppPhase::Running ==> r.model.phase == m.phase && r.effects.len() == 0
        }),
{
}

/// A batch is for the enabled files with the settings of the interface; these files then wait.
pub proof fn law_terminal_batches_follow_the_settings(m: ModelView)
    requires
        m.batch_built().1 is Ok,
    ensures
        ({
            let after = m.batch_built().0;
            let batch = m.batch_built().1->Ok_0;
            let target = session::target_of(
                m.settings.codec,
                m.settings.bitrate,
                m.settings.channels,
            );
            let mode = session::mode_of(m.settings.mode);
            &&& target is Ok && mode is Ok
            &&& batch.files == queue::requests_for(
                m.queue,
                m.settings.policy(),
                target->Ok_0,
                mode->Ok_0,
                m.settings.action_remux,
            )
            &&& batch.options.max_concurrency == m.settings.jobs
            &&& batch.options.failure_policy == m.settings.failure_policy
            &&& batch.options.dry_run == m.settings.dry_run
            &&& after.phase == AppPhase::Running
            &&& after.active_queue_ids == queue::enabled_ids(m.queue)
            &&& after.queue == queue::started(m.queue, Interface::Terminal)
            &&& m.batch_begun() == (after, Some(batch))
        }),
{
}

/// A batch is built exactly where target, mode and the number of files at once can be used; one that
/// is not leaves the interface idle, with a message.
pub proof fn law_when_terminal_batches_begin(m: ModelView)
    ensures
        m.batch_built().1 is Ok <==> {
            &&& session::target_of(m.settings.codec, m.settings.bitrate, m.settings.channels) is Ok
            &&& session::mode_of(m.settings.mode) is Ok
            &&& 1 <= m.settings.jobs <= 64
        },
        m.batch_built().1 is Err ==> m.batch_begun().1 is None && m.batch_begun().0.phase
            == AppPhase::Idle && m.batch_begun().0.overlay == Some(
            OverlayView::Notice(m.batch_built().1->Err_0),
        ),
{
}

} // verus!
