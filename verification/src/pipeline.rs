//! The pipeline orchestrator, as an explicit state machine.
//!
//! One run walks `CreatingWorkspace -> ExportingBase -> ExportingRevision
//! -> Diffing -> Assembling -> CleaningUp -> Done`, with `Failed` as the
//! terminal state of an unsuccessful run.  Each step consumes the outcome
//! of the previous outside action and decides the next state and the next
//! action; whoever drives the run performs the action (creating
//! directories, rasterizing a document, comparing pixels, assembling and
//! saving the output, removing the workspace) and feeds the outcome back.
//! A document-level failure is fatal, but cleanup is still attempted: every
//! failure routes through `CleaningUp` before the run terminates.

use vstd::prelude::*;
use crate::align::{align, align_post, OutputPagePlan};
use crate::diffplan::{collect_pages, collected_pages, diff_request_matches, diff_requests,
    lemma_output_page_count, DiffRequest};
use crate::export::{PageRaster, PdfExportResult};
use crate::options::CompareOptions;
use crate::workspace::{scratch_workspace, workspace_wf, ScratchWorkspace};

verus! {

/// One comparison run: the two input documents, the output document and
/// the comparison options.
#[derive(Debug)]
pub struct PdfDiff {
    pub base_pdf: String,
    pub diff_pdf: String,
    pub output_pdf: String,
    pub compare_options: CompareOptions,
}

/// A fatal or per-page failure, with enough of the offending path or page
/// index to diagnose it.  Document-level failures abort the run; a compare
/// failure only drops its page; a workspace-removal failure is logged only.
#[derive(Debug)]
pub enum PipelineError {
    DocumentOpen { path: String },
    Render { path: String, page: usize },
    Encode { path: String, page: usize },
    Decode { path: String },
    Compare { page: usize },
    Assemble { path: String },
    Save { path: String },
    Workspace { path: String },
}

/// Where one run stands.
pub enum PipelineState {
    CreatingWorkspace { ws: ScratchWorkspace },
    ExportingBase { ws: ScratchWorkspace },
    ExportingRevision { ws: ScratchWorkspace, base: PdfExportResult },
    Diffing { ws: ScratchWorkspace, plans: Vec<OutputPagePlan> },
    Assembling { ws: ScratchWorkspace },
    CleaningUp { root: String, failure: Option<PipelineError> },
    Done,
    Failed { error: PipelineError },
}

/// The outcome of the last outside action, handed back to the machine.
pub enum PipelineEvent {
    WorkspaceReady,
    WorkspaceFailed { error: PipelineError },
    ExportFinished { result: PdfExportResult },
    ExportFailed { error: PipelineError },
    ComparesFinished { compare_ok: Vec<bool> },
    AssembleFinished,
    AssembleFailed { error: PipelineError },
    WorkspaceRemoved { removed: bool },
}

/// The outside work the machine asks for next.
pub enum PipelineAction {
    CreateWorkspace { base_dir: String, diff_dir: String, diff_images_dir: String },
    ExportDocument { source: String, out_dir: String, page_prefix: String },
    RunCompares { requests: Vec<Option<DiffRequest>> },
    AssembleDocument { output_path: String, pages: Vec<String> },
    RemoveWorkspace { root: String },
    Finish,
}

/// The events each state can answer: exactly the outcomes of the action
/// that the state was entered with.
pub open spec fn accepts(state: PipelineState, event: PipelineEvent) -> bool {
    match (state, event) {
        (PipelineState::CreatingWorkspace { .. }, PipelineEvent::WorkspaceReady) => true,
        (PipelineState::CreatingWorkspace { .. }, PipelineEvent::WorkspaceFailed { .. }) => true,
        (PipelineState::ExportingBase { .. }, PipelineEvent::ExportFinished { .. }) => true,
        (PipelineState::ExportingBase { .. }, PipelineEvent::ExportFailed { .. }) => true,
        (PipelineState::ExportingRevision { .. }, PipelineEvent::ExportFinished { .. }) => true,
        (PipelineState::ExportingRevision { .. }, PipelineEvent::ExportFailed { .. }) => true,
        (
            PipelineState::Diffing { plans, .. },
            PipelineEvent::ComparesFinished { compare_ok },
        ) => compare_ok@.len() == plans@.len(),
        (PipelineState::Assembling { .. }, PipelineEvent::AssembleFinished) => true,
        (PipelineState::Assembling { .. }, PipelineEvent::AssembleFailed { .. }) => true,
        (PipelineState::CleaningUp { .. }, PipelineEvent::WorkspaceRemoved { .. }) => true,
        _ => false,
    }
}

/// The full transition relation of one step: given the run `pd`, the state
/// and the event, exactly which next state and action the machine yields.
pub open spec fn transition(
    pd: PdfDiff,
    state: PipelineState,
    event: PipelineEvent,
    next: PipelineState,
    action: PipelineAction,
) -> bool {
    match (state, event) {
        (PipelineState::CreatingWorkspace { ws }, PipelineEvent::WorkspaceReady) => {
            &&& next == (PipelineState::ExportingBase { ws })
            &&& action matches PipelineAction::ExportDocument { source, out_dir, page_prefix }
            &&& source@ == pd.base_pdf@
            &&& out_dir@ == ws.base_dir@
            &&& page_prefix@ == "base"@
        },
        (PipelineState::CreatingWorkspace { ws }, PipelineEvent::WorkspaceFailed { error }) => {
            &&& next == (PipelineState::CleaningUp { root: ws.root, failure: Some(error) })
            &&& action == (PipelineAction::RemoveWorkspace { root: ws.root })
        },
        (PipelineState::ExportingBase { ws }, PipelineEvent::ExportFinished { result }) => {
            &&& next == (PipelineState::ExportingRevision { ws, base: result })
            &&& action matches PipelineAction::ExportDocument { source, out_dir, page_prefix }
            &&& source@ == pd.diff_pdf@
            &&& out_dir@ == ws.diff_dir@
            &&& page_prefix@ == "diff"@
        },
        (PipelineState::ExportingBase { ws }, PipelineEvent::ExportFailed { error }) => {
            &&& next == (PipelineState::CleaningUp { root: ws.root, failure: Some(error) })
            &&& action == (PipelineAction::RemoveWorkspace { root: ws.root })
        },
        (
            PipelineState::ExportingRevision { ws, base },
            PipelineEvent::ExportFinished { result },
        ) => {
            &&& next matches PipelineState::Diffing { ws: ws2, plans }
            &&& ws2 == ws
            &&& align_post(base.pages@, result.pages@, plans@)
            &&& action matches PipelineAction::RunCompares { requests }
            &&& requests@.len() == plans@.len()
            &&& forall|i: int|
                0 <= i < plans@.len() ==> diff_request_matches(
                    plans@[i],
                    #[trigger] requests@[i],
                    ws.diff_images_dir@,
                    i,
                    pd.compare_options,
                )
        },
        (PipelineState::ExportingRevision { ws, .. }, PipelineEvent::ExportFailed { error }) => {
            &&& next == (PipelineState::CleaningUp { root: ws.root, failure: Some(error) })
            &&& action == (PipelineAction::RemoveWorkspace { root: ws.root })
        },
        (
            PipelineState::Diffing { ws, plans },
            PipelineEvent::ComparesFinished { compare_ok },
        ) => {
            &&& next == (PipelineState::Assembling { ws })
            &&& action matches PipelineAction::AssembleDocument { output_path, pages }
            &&& output_path@ == pd.output_pdf@
            &&& pages@.len() == collected_pages(plans@, compare_ok@, ws.diff_images_dir@).len()
            &&& forall|k: int|
                0 <= k < pages@.len() ==> #[trigger] pages@[k]@ == collected_pages(
                    plans@,
                    compare_ok@,
                    ws.diff_images_dir@,
                )[k]
        },
        (PipelineState::Assembling { ws }, PipelineEvent::AssembleFinished) => {
            &&& next == (PipelineState::CleaningUp { root: ws.root, failure: None })
            &&& action == (PipelineAction::RemoveWorkspace { root: ws.root })
        },
        (PipelineState::Assembling { ws }, PipelineEvent::AssembleFailed { error }) => {
            &&& next == (PipelineState::CleaningUp { root: ws.root, failure: Some(error) })
            &&& action == (PipelineAction::RemoveWorkspace { root: ws.root })
        },
        (
            PipelineState::CleaningUp { root, failure },
            PipelineEvent::WorkspaceRemoved { removed: _ },
        ) => {
            &&& match failure {
                None => next == PipelineState::Done,
                Some(e) => next == (PipelineState::Failed { error: e }),
            }
            &&& action == PipelineAction::Finish
        },
        _ => false,
    }
}

impl PdfDiff {
    /// Begins a run: plans the scratch workspace under `tmp_root` and asks
    /// for its three directories to be created.
    pub fn start(&self, tmp_root: &str) -> (r: (PipelineState, PipelineAction))
        ensures
            ({
                &&& r.0 matches PipelineState::CreatingWorkspace { ws }
                &&& workspace_wf(ws, tmp_root@)
                &&& r.1 matches PipelineAction::CreateWorkspace {
                    base_dir,
                    diff_dir,
                    diff_images_dir,
                }
                &&& base_dir == ws.base_dir
                &&& diff_dir == ws.diff_dir
                &&& diff_images_dir == ws.diff_images_dir
            }),
    {
        let ws = scratch_workspace(tmp_root);
        let base_dir = ws.base_dir.clone();
        let diff_dir = ws.diff_dir.clone();
        let diff_images_dir = ws.diff_images_dir.clone();
        (
            PipelineState::CreatingWorkspace { ws },
            PipelineAction::CreateWorkspace { base_dir, diff_dir, diff_images_dir },
        )
    }

    /// Consumes the outcome of the last action and yields the next state
    /// and the next action, as `transition` describes.
    pub fn step(&self, state: PipelineState, event: PipelineEvent) -> (r: (
        PipelineState,
        PipelineAction,
    ))
        requires
            accepts(state, event),
        ensures
            transition(*self, state, event, r.0, r.1),
    {
        match (state, event) {
            (PipelineState::CreatingWorkspace { ws }, PipelineEvent::WorkspaceReady) => {
                let source = self.base_pdf.clone();
                let out_dir = ws.base_dir.clone();
                let page_prefix = String::from_str("base");
                (
                    PipelineState::ExportingBase { ws },
                    PipelineAction::ExportDocument { source, out_dir, page_prefix },
                )
            },
            (
                PipelineState::CreatingWorkspace { ws },
                PipelineEvent::WorkspaceFailed { error },
            ) => {
                (
                    PipelineState::CleaningUp { root: ws.root.clone(), failure: Some(error) },
                    PipelineAction::RemoveWorkspace { root: ws.root },
                )
            },
            (PipelineState::ExportingBase { ws }, PipelineEvent::ExportFinished { result }) => {
                let source = self.diff_pdf.clone();
                let out_dir = ws.diff_dir.clone();
                let page_prefix = String::from_str("diff");
                (
                    PipelineState::ExportingRevision { ws, base: result },
                    PipelineAction::ExportDocument { source, out_dir, page_prefix },
                )
            },
            (PipelineState::ExportingBase { ws }, PipelineEvent::ExportFailed { error }) => {
                (
                    PipelineState::CleaningUp { root: ws.root.clone(), failure: Some(error) },
                    PipelineAction::RemoveWorkspace { root: ws.root },
                )
            },
            (
                PipelineState::ExportingRevision { ws, base },
                PipelineEvent::ExportFinished { result },
            ) => {
                let plans = align(&base.pages, &result.pages);
                let requests = diff_requests(
                    &plans,
                    ws.diff_images_dir.as_str(),
                    &self.compare_options,
                );
                (PipelineState::Diffing { ws, plans }, PipelineAction::RunCompares { requests })
            },
            (
                PipelineState::ExportingRevision { ws, .. },
                PipelineEvent::ExportFailed { error },
            ) => {
                (
                    PipelineState::CleaningUp { root: ws.root.clone(), failure: Some(error) },
                    PipelineAction::RemoveWorkspace { root: ws.root },
                )
            },
            (
                PipelineState::Diffing { ws, plans },
                PipelineEvent::ComparesFinished { compare_ok },
            ) => {
                let pages = collect_pages(&plans, &compare_ok, ws.diff_images_dir.as_str());
                let output_path = self.output_pdf.clone();
                (
                    PipelineState::Assembling { ws },
                    PipelineAction::AssembleDocument { output_path, pages },
                )
            },
            (PipelineState::Assembling { ws }, PipelineEvent::AssembleFinished) => {
                (
                    PipelineState::CleaningUp { root: ws.root.clone(), failure: None },
                    PipelineAction::RemoveWorkspace { root: ws.root },
                )
            },
            (PipelineState::Assembling { ws }, PipelineEvent::AssembleFailed { error }) => {
                (
                    PipelineState::CleaningUp { root: ws.root.clone(), failure: Some(error) },
                    PipelineAction::RemoveWorkspace { root: ws.root },
                )
            },
            (
                PipelineState::CleaningUp { root: _, failure },
                PipelineEvent::WorkspaceRemoved { removed: _ },
            ) => {
                match failure {
                    None => (PipelineState::Done, PipelineAction::Finish),
                    Some(e) => (PipelineState::Failed { error: e }, PipelineAction::Finish),
                }
            },
            _ => { unreached() },
        }
    }
}

/// Cleanup is attempted on every exit path: a step may end in `Done` or
/// `Failed` only from `CleaningUp`, and every step into `CleaningUp` emits
/// the action that removes the workspace root — so a run that allocated a
/// workspace always asks for its removal before it terminates, whether it
/// succeeds or fails.
pub proof fn lemma_cleanup_before_terminal(
    pd: PdfDiff,
    state: PipelineState,
    event: PipelineEvent,
    next: PipelineState,
    action: PipelineAction,
)
    requires
        transition(pd, state, event, next, action),
    ensures
        (next is Done || next matches PipelineState::Failed { .. }) ==> state
            matches PipelineState::CleaningUp { .. },
        next matches PipelineState::CleaningUp { root, .. } ==> action
            matches PipelineAction::RemoveWorkspace { root: r } && r == root,
{
}

/// A run whose page compares all succeed assembles exactly
/// `max(baseCount, revisionCount)` pages, whether or not the two exports
/// had the same page count.
pub proof fn lemma_assembled_page_count(
    pd: PdfDiff,
    ws: ScratchWorkspace,
    plans: Vec<OutputPagePlan>,
    compare_ok: Vec<bool>,
    base: Seq<PageRaster>,
    revision: Seq<PageRaster>,
    next: PipelineState,
    action: PipelineAction,
)
    requires
        align_post(base, revision, plans@),
        compare_ok@.len() == plans@.len(),
        forall|i: int| 0 <= i < compare_ok@.len() ==> #[trigger] compare_ok@[i],
        transition(
            pd,
            PipelineState::Diffing { ws, plans },
            PipelineEvent::ComparesFinished { compare_ok },
            next,
            action,
        ),
    ensures
        ({
            &&& action matches PipelineAction::AssembleDocument { pages, .. }
            &&& pages@.len() == if base.len() >= revision.len() {
                base.len()
            } else {
                revision.len()
            }
        }),
{
    lemma_output_page_count(base, revision, plans@, compare_ok@, ws.diff_images_dir@);
}

} // verus!
