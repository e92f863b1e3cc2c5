//! What is at an output path, and plans with their failures.
use vstd::prelude::*;

use crate::backend::{BackendError, IoError, IoErrorKind, IoErrorView};
use crate::execution::EntryFacts;
use crate::media::{MediaInfo, MediaInfoView};
use crate::plan;
use crate::plan::{JobPlan, JobPlanView, PlanErrorView, PlanOutcome, PlanningPolicy};
use crate::runtime::config;
use crate::runtime::error::{RuntimeError, RuntimeErrorView};
use crate::validate;
use crate::validate::{MismatchView, ValidationMismatch};

verus! {

/// What is at the output path of a plan.
#[derive(Debug, PartialEq, Eq)]
pub enum ExistingOutputOutcome {
    /// Nothing.
    Absent,
    /// A file as the plan promises it.
    Valid,
    /// Something else.
    Conflict {
        /// How it differs, where that was looked at.
        mismatches: Vec<ValidationMismatch>,
    },
}

/// What is at the output path of a plan.
pub enum ExistingView {
    /// Nothing.
    Absent,
    /// A file as the plan promises it.
    Valid,
    /// Something else.
    Conflict {
        /// How it differs, where that was looked at.
        mismatches: Seq<MismatchView>,
    },
}

impl View for ExistingOutputOutcome {
    type V = ExistingView;

    open spec fn view(&self) -> ExistingView {
        match self {
            ExistingOutputOutcome::Absent => ExistingView::Absent,
            ExistingOutputOutcome::Valid => ExistingView::Valid,
            ExistingOutputOutcome::Conflict { mismatches } => ExistingView::Conflict {
                mismatches: mismatches.deep_view(),
            },
        }
    }
}

impl DeepView for ExistingOutputOutcome {
    type V = ExistingView;

    open spec fn deep_view(&self) -> ExistingView {
        self@
    }
}

impl Clone for ExistingOutputOutcome {
    fn clone(&self) -> (r: Self)
        ensures
            r@ == self@,
    {
        match self {
            ExistingOutputOutcome::Absent => ExistingOutputOutcome::Absent,
            ExistingOutputOutcome::Valid => ExistingOutputOutcome::Valid,
            ExistingOutputOutcome::Conflict { mismatches } => {
                let copy = mismatches.clone();
                proof {
                    assert(copy.deep_view() =~= mismatches.deep_view());
                }
                ExistingOutputOutcome::Conflict { mismatches: copy }
            },
        }
    }
}

/// What the entry at an output path tells without a probe: nothing where only a probe can tell.
pub open spec fn entry_verdict(entry: Result<EntryFacts, IoErrorView>) -> Result<
    Option<ExistingView>,
    RuntimeErrorView,
> {
    match entry {
        Err(source) => if source.kind == IoErrorKind::NotFound {
            Ok(Some(ExistingView::Absent))
        } else {
            Err(RuntimeErrorView::InspectOutput { source })
        },
        Ok(facts) => if facts.symlink || !facts.file {
            Ok(Some(ExistingView::Conflict { mismatches: seq![] }))
        } else {
            Ok(None)
        },
    }
}

/// What is told of a verdict.
pub open spec fn verdict_told(verdict: Option<ExistingOutputOutcome>) -> Option<ExistingView> {
    match verdict {
        Some(v) => Some(v@),
        None => None,
    }
}

/// What the entry at an output path tells without a probe: nothing where only a probe can tell.
pub fn inspect_output_entry(entry: Result<EntryFacts, IoError>) -> (r: Result<
    Option<ExistingOutputOutcome>,
    RuntimeError,
>)
    ensures
        match r {
            Ok(v) => entry_verdict(config::entry_told(entry)) == Ok::<_, RuntimeErrorView>(
                verdict_told(v),
            ),
            Err(e) => entry_verdict(config::entry_told(entry)) == Err::<Option<ExistingView>, _>(
                e@,
            ),
        },
{
    match entry {
        Err(source) => match source.kind() {
            IoErrorKind::NotFound => Ok(Some(ExistingOutputOutcome::Absent)),
            _ => Err(RuntimeError::InspectOutput { source }),
        },
        Ok(facts) => if facts.symlink || !facts.file {
            let mismatches: Vec<ValidationMismatch> = Vec::new();
            proof {
                assert(mismatches.deep_view() =~= seq![]);
            }
            Ok(Some(ExistingOutputOutcome::Conflict { mismatches }))
        } else {
            Ok(None)
        },
    }
}

/// What a probe of the file at an output path tells.
pub open spec fn probe_verdict(job: JobPlanView, media: MediaInfoView) -> ExistingView {
    let mismatches = validate::all_mismatches(job, media);
    if mismatches.len() == 0 {
        ExistingView::Valid
    } else {
        ExistingView::Conflict { mismatches }
    }
}

/// What a probe of the file at an output path tells.
pub fn inspect_existing_output(plan: &JobPlan, probed: Result<MediaInfo, BackendError>) -> (r:
    Result<ExistingOutputOutcome, RuntimeError>)
    ensures
        match (probed, r) {
            (Ok(media), Ok(v)) => v@ == probe_verdict(plan@, media@),
            (Err(error), Err(e)) => e@ == RuntimeErrorView::Backend(error@),
            _ => false,
        },
{
    match probed {
        Err(error) => Err(RuntimeError::Backend(error)),
        Ok(media) => match validate::compare_output(plan, &media) {
            Ok(_) => Ok(ExistingOutputOutcome::Valid),
            Err(mismatches) => Ok(ExistingOutputOutcome::Conflict { mismatches }),
        },
    }
}

/// Makes a plan, with the failure as the work on a file reports it.
pub fn plan_media(media: &MediaInfo, policy: &PlanningPolicy) -> (r: Result<
    PlanOutcome,
    RuntimeError,
>)
    ensures
        match r {
            Ok(o) => plan::outcome(media@, policy@) == Ok::<_, PlanErrorView>(o@),
            Err(e) => plan::outcome(media@, policy@) matches Err(error) && e@
                == RuntimeErrorView::Plan(error),
        },
{
    match plan::build(media, policy) {
        Ok(o) => Ok(o),
        Err(e) => Err(RuntimeError::Plan(e)),
    }
}

} // verus!
