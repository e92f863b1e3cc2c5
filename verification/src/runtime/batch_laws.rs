//! What holds of the progress of a batch.
use vstd::prelude::*;

use crate::backend::ProgressSnapshot;
use crate::runtime::batch;
use crate::runtime::batch::{BatchStage, FileResultView, FileStateView, FileStatus, StatusClass};
use crate::runtime::prepare::FileOutcomeView;

verus! {

/// What a file adds to the duration of a batch: its own where it is to be converted.
pub open spec fn work_of(file: FileStateView) -> int {
    if file.will_execute && file.duration_us is Some {
        file.duration_us->0 as int
    } else {
        0
    }
}

/// Whether so much of a file that is to be converted is done: all of it once its output was
/// published, and else what was converted, but never more than there is.
pub open spec fn done_of(file: FileStateView, done: int) -> bool {
    let reached: int = if file.position_us is Some {
        file.position_us->0 as int
    } else {
        0
    };
    if !file.will_execute {
        done == 0
    } else if file.status is Succeeded {
        done == work_of(file)
    } else {
        (done == reached || done == work_of(file)) && done <= reached && done <= work_of(file)
    }
}

/// The duration of a batch and what is done of it are the sums over its files.
pub proof fn law_totals_are_sums(files: Seq<FileStateView>, file: FileStateView)
    ensures
        batch::total_duration(Seq::<FileStateView>::empty()) == 0,
        batch::total_position(Seq::<FileStateView>::empty()) == 0,
        batch::total_duration(files.push(file)) == batch::total_duration(files) + work_of(file),
        done_of(file, batch::total_position(files.push(file)) - batch::total_position(files)),
{
    assert(files.push(file).drop_last() =~= files);
}

proof fn lemma_sums(files: Seq<FileStateView>)
    ensures
        0 <= batch::total_position(files) <= batch::total_duration(files),
    decreases files.len(),
{
    if files.len() > 0 {
        lemma_sums(files.drop_last());
    }
}

proof fn lemma_some_work(files: Seq<FileStateView>, i: int)
    requires
        0 <= i < files.len(),
        files[i].will_execute,
        files[i].duration_us is Some && files[i].duration_us->0 > 0,
    ensures
        batch::total_duration(files) > 0,
    decreases files.len(),
{
    lemma_sums(files.drop_last());
    if i < files.len() - 1 {
        lemma_some_work(files.drop_last(), i);
    }
}

/// Whether a file is to be converted and every such file has a duration.
pub open spec fn all_timed(files: Seq<FileStateView>) -> bool {
    &&& exists|i: int| 0 <= i < files.len() && (#[trigger] files[i]).will_execute
    &&& forall|i: int|
        0 <= i < files.len() && (#[trigger] files[i]).will_execute ==> files[i].duration_us is Some
            && files[i].duration_us->0 > 0
}

proof fn lemma_quotient(a: int, b: int, q: int)
    requires
        b > 0,
        q == a / b,
    ensures
        q * b <= a < (q + 1) * b,
{
    assert(q * b <= a < (q + 1) * b) by (nonlinear_arith)
        requires
            b > 0,
            q == a / b,
    ;
}

/// The progress of a batch is known exactly while its files are converted and each has a duration.
/// It is what is done of the whole duration, in thousandths rounded down.
pub proof fn law_progress_is_the_share_done(stage: BatchStage, files: Seq<FileStateView>)
    ensures
        ({
            let progress = batch::batch_progress(stage, files);
            let done = batch::total_position(files);
            let total = batch::total_duration(files);
            &&& progress is Some <==> stage == BatchStage::Executing && all_timed(files)
            &&& progress is Some ==> progress->0 <= 1_000 && progress->0 * total <= done * 1_000
            &&& progress is Some && done * 1_000 <= u128::MAX ==> done * 1_000 < (progress->0 + 1)
                * total
        }),
{
    lemma_sums(files);
    let done = batch::total_position(files);
    let total = batch::total_duration(files);
    if stage == BatchStage::Executing && all_timed(files) {
        let i = choose|i: int| 0 <= i < files.len() && (#[trigger] files[i]).will_execute;
        lemma_some_work(files, i);
        assert(batch::is_measurable(files));
        let scaled = batch::saturated(done * 1_000);
        let milli = scaled / total;
        lemma_quotient(scaled, total, milli);
        assert(0 <= milli <= 1_000) by (nonlinear_arith)
            requires
                milli * total <= scaled < (milli + 1) * total,
                0 <= scaled <= done * 1_000,
                0 <= done <= total,
                total > 0,
        ;
    }
}

/// The time that a batch still needs is what remains at the speed so far: as many microseconds for
/// what is left as the elapsed ones were for what is done, rounded down. It is nothing once
/// everything is done.
pub proof fn law_remaining_time(
    stage: BatchStage,
    files: Seq<FileStateView>,
    elapsed: u128,
    samples: usize,
)
    requires
        batch::batch_eta(stage, files, Some(elapsed), samples) is Some,
    ensures
        ({
            let eta = batch::batch_eta(stage, files, Some(elapsed), samples)->0;
            let done = batch::total_position(files);
            let total = batch::total_duration(files);
            &&& 0 < done <= total
            &&& eta * done <= (total - done) * elapsed
            &&& (total - done) * elapsed <= u128::MAX ==> (total - done) * elapsed < (eta + 1)
                * done
            &&& done == total ==> eta == 0
        }),
{
    lemma_sums(files);
    let eta = batch::batch_eta(stage, files, Some(elapsed), samples)->0;
    let done = batch::total_position(files);
    let total = batch::total_duration(files);
    let product = (total - done) * elapsed;
    assert(product >= 0) by (nonlinear_arith)
        requires
            product == (total - done) * elapsed,
            done <= total,
            elapsed >= 0,
    ;
    let scaled = batch::saturated(product);
    lemma_quotient(scaled, done, scaled / done);
    assert(0 <= scaled / done) by (nonlinear_arith)
        requires
            scaled >= 0,
            done > 0,
    ;
    if done == total {
        assert(product == 0) by (nonlinear_arith)
            requires
                product == (total - done) * elapsed,
                done == total,
        ;
        assert(0int / done == 0) by (nonlinear_arith)
            requires
                done > 0,
        ;
    }
}

/// The time that a batch still needs is known after two seconds and two advances of files that are
/// being converted, where something is done and it is not more than a number can hold.
pub proof fn law_when_remaining_time_is_known(
    stage: BatchStage,
    files: Seq<FileStateView>,
    elapsed: Option<u128>,
    samples: usize,
)
    ensures
        ({
            let eta = batch::batch_eta(stage, files, elapsed, samples);
            let done = batch::total_position(files);
            let total = batch::total_duration(files);
            &&& eta is Some ==> stage == BatchStage::Executing && all_timed(files) && done > 0
                && elapsed is Some && elapsed->0 >= 2_000_000 && samples >= 2
            &&& stage == BatchStage::Executing && all_timed(files) && done > 0 && elapsed is Some
                && elapsed->0 >= 2_000_000 && samples >= 2 && (total - done) * elapsed->0
                <= u64::MAX ==> eta is Some
        }),
{
    lemma_sums(files);
    let done = batch::total_position(files);
    let total = batch::total_duration(files);
    assert(all_timed(files) <==> batch::is_measurable(files));
    if elapsed is Some && done > 0 && (total - done) * elapsed->0 <= u64::MAX {
        let product = (total - done) * elapsed->0;
        let q = product / done;
        lemma_quotient(product, done, q);
        assert(q <= 0xffff_ffff_ffff_ffff) by (nonlinear_arith)
            requires
                q * done <= product,
                product <= 0xffff_ffff_ffff_ffff,
                done >= 1,
        ;
    }
}

/// A progress record moves a file to where its conversion is, at most to the end of the file; a
/// record without a time, or with one before the beginning, tells of no place. Everything that is
/// not progress stays.
pub proof fn law_record_moves_a_file(file: FileStateView, record: ProgressSnapshot)
    ensures
        ({
            let next = batch::progressed(file, record);
            let told = record.out_time_us is Some && record.out_time_us->0 >= 0;
            &&& next.position_us is Some <==> told
            &&& told && file.duration_us is Some && record.out_time_us->0 > file.duration_us->0
                ==> next.position_us == file.duration_us
            &&& told && (file.duration_us is None || record.out_time_us->0 <= file.duration_us->0)
                ==> next.position_us->0 == record.out_time_us->0
            &&& next.speed_milli == record.speed_milli
            &&& next.id == file.id
            &&& next.path == file.path
            &&& next.status == file.status
            &&& next.duration_us == file.duration_us
            &&& next.will_execute == file.will_execute
        }),
{
}

/// The time that a file still needs is what is left of it at its speed, rounded down. It is told
/// where duration, place and speed are, the speed is not zero and something is left.
pub proof fn law_file_remaining_time(file: FileStateView, record: ProgressSnapshot)
    ensures
        ({
            let next = batch::progressed(file, record);
            let left = next.duration_us->0 - next.position_us->0;
            let speed = next.speed_milli->0;
            let known = next.duration_us is Some && next.position_us is Some
                && next.speed_milli is Some && speed > 0 && left > 0;
            &&& next.eta_us is Some ==> known && next.eta_us->0 * speed <= left * 1_000 < (
            next.eta_us->0 + 1) * speed
            &&& known && left * 1_000 <= u64::MAX ==> next.eta_us is Some
        }),
{
    let next = batch::progressed(file, record);
    if next.duration_us is Some && next.position_us is Some && next.speed_milli is Some {
        let left = next.duration_us->0 - next.position_us->0;
        let speed = next.speed_milli->0 as int;
        if speed > 0 && left > 0 {
            let q = left * 1_000 / speed;
            lemma_quotient(left * 1_000, speed, q);
            assert(0 <= q <= left * 1_000) by (nonlinear_arith)
                requires
                    q * speed <= left * 1_000 < (q + 1) * speed,
                    speed >= 1,
                    left > 0,
            ;
        }
    }
}

/// How many files have one of two statuses.
pub open spec fn having(
    files: Seq<FileStateView>,
    a: FileStatus,
    b: FileStatus,
) -> nat
    decreases files.len(),
{
    if files.len() == 0 {
        0
    } else {
        having(files.drop_last(), a, b) + if files.last().status == a || files.last().status == b {
            1nat
        } else {
            0
        }
    }
}

proof fn lemma_classes(files: Seq<FileStateView>)
    ensures
        batch::count_class(files, StatusClass::Active) == having(
            files,
            FileStatus::Preparing,
            FileStatus::Running,
        ),
        batch::count_class(files, StatusClass::Queued) == having(
            files,
            FileStatus::Queued,
            FileStatus::Ready,
        ),
        batch::count_class(files, StatusClass::Prepared) + having(
            files,
            FileStatus::Queued,
            FileStatus::Preparing,
        ) == files.len(),
        batch::count_class(files, StatusClass::Completed) + batch::count_class(
            files,
            StatusClass::Active,
        ) + batch::count_class(files, StatusClass::Queued) == files.len(),
    decreases files.len(),
{
    if files.len() > 0 {
        lemma_classes(files.drop_last());
    }
}

/// A snapshot counts its files: those being inspected or converted are active, those waiting for
/// either are queued, all others are completed, and every file that neither waits for its inspection
/// nor is being inspected is prepared.
pub proof fn law_snapshot_counts(
    stage: BatchStage,
    files: Seq<FileStateView>,
    samples: usize,
    elapsed: Option<u128>,
)
    requires
        files.len() <= usize::MAX,
    ensures
        ({
            let s = batch::snapshot_of(stage, files, samples, elapsed);
            &&& s.stage == stage
            &&& s.files == files
            &&& s.total == files.len()
            &&& s.active == having(files, FileStatus::Preparing, FileStatus::Running)
            &&& s.queued == having(files, FileStatus::Queued, FileStatus::Ready)
            &&& s.queued + s.active + s.completed == s.total
            &&& s.prepared + having(files, FileStatus::Queued, FileStatus::Preparing) == s.total
            &&& s.progress_milli == batch::batch_progress(stage, files)
            &&& s.eta_us == batch::batch_eta(stage, files, elapsed, samples)
        }),
{
    lemma_classes(files);
}

/// The work on a file is over exactly where its status is one of an outcome, and every outcome has
/// the status of its name.
pub proof fn law_outcomes_have_statuses(outcome: FileOutcomeView, status: FileStatus)
    ensures
        batch::status_of(outcome).over(),
        outcome is Succeeded <==> batch::status_of(outcome) is Succeeded,
        outcome is Skipped <==> batch::status_of(outcome) is Skipped,
        outcome is Planned <==> batch::status_of(outcome) is Planned,
        outcome is Failed <==> batch::status_of(outcome) is Failed,
        outcome is Cancelled <==> batch::status_of(outcome) is Cancelled,
        status.over() <==> !(status is Queued || status is Preparing || status is Ready
            || status is Running),
        status.busy() <==> status is Preparing || status is Running,
{
}

/// One more failed file is one more failure, and any other file is none.
pub proof fn law_failures_are_counted(results: Seq<FileResultView>, result: FileResultView)
    ensures
        batch::failures(Seq::<FileResultView>::empty()) == 0,
        batch::failures(results.push(result)) - batch::failures(results) == if result.outcome
            is Failed {
            1int
        } else {
            0
        },
{
    assert(results.push(result).drop_last() =~= results);
}

/// Samples are counted one by one, as far as a number goes.
pub proof fn law_samples_are_counted(samples: usize)
    ensures
        samples < usize::MAX ==> batch::one_more(samples) == samples + 1,
        batch::one_more(usize::MAX) == usize::MAX,
{
}

} // verus!
