use pdeef::export::{PageRaster, PdfExportResult};
use pdeef::options::CompareOptions;
use pdeef::pipeline::{PdfDiff, PipelineAction, PipelineError, PipelineEvent, PipelineState};
use pdeef::workspace::scratch_workspace;

fn run() -> PdfDiff {
    PdfDiff {
        base_pdf: "base.pdf".to_string(),
        diff_pdf: "revision.pdf".to_string(),
        output_pdf: "out.pdf".to_string(),
        compare_options: CompareOptions {
            threshold_milli: 100,
            alpha_milli: 600,
            diff_colour: [218, 165, 32, 255],
        },
    }
}

fn export(source: &str, dir: &str, prefix: &str, count: usize) -> PdfExportResult {
    PdfExportResult {
        original_pdf: source.to_string(),
        pages: (0..count)
            .map(|i| PageRaster {
                path: format!("{}/{}_[{}].jpg", dir, prefix, i),
                width_px: 612,
                height_px: 792,
            })
            .collect(),
    }
}

#[test]
fn workspace_layout_and_uniqueness() {
    let a = scratch_workspace("/tmp");
    let b = scratch_workspace("/tmp");
    assert_eq!(a.run_id.len(), 36);
    assert_eq!(a.root, format!("/tmp/{}", a.run_id));
    assert_eq!(a.base_dir, format!("{}/base", a.root));
    assert_eq!(a.diff_dir, format!("{}/diff", a.root));
    assert_eq!(a.diff_images_dir, format!("{}/diff_images", a.root));
    // Two runs never share scratch storage.
    assert_ne!(a.root, b.root);
}

#[test]
fn successful_run_walks_every_stage() {
    let pd = run();
    let (state, action) = pd.start("/tmp");
    let (base_dir, diff_dir, images_dir) = match &action {
        PipelineAction::CreateWorkspace { base_dir, diff_dir, diff_images_dir } => {
            (base_dir.clone(), diff_dir.clone(), diff_images_dir.clone())
        },
        _ => panic!("the run must begin by creating the workspace"),
    };
    assert!(matches!(state, PipelineState::CreatingWorkspace { .. }));

    let (state, action) = pd.step(state, PipelineEvent::WorkspaceReady);
    match &action {
        PipelineAction::ExportDocument { source, out_dir, page_prefix } => {
            assert_eq!(source, "base.pdf");
            assert_eq!(out_dir, &base_dir);
            assert_eq!(page_prefix, "base");
        },
        _ => panic!("the base document must be exported first"),
    }
    assert!(matches!(state, PipelineState::ExportingBase { .. }));

    let base = export("base.pdf", &base_dir, "base", 2);
    let (state, action) = pd.step(state, PipelineEvent::ExportFinished { result: base });
    match &action {
        PipelineAction::ExportDocument { source, out_dir, page_prefix } => {
            assert_eq!(source, "revision.pdf");
            assert_eq!(out_dir, &diff_dir);
            assert_eq!(page_prefix, "diff");
        },
        _ => panic!("the revision document must be exported second"),
    }

    let revision = export("revision.pdf", &diff_dir, "diff", 5);
    let (state, action) = pd.step(state, PipelineEvent::ExportFinished { result: revision });
    let compare_ok = match &action {
        PipelineAction::RunCompares { requests } => {
            assert_eq!(requests.len(), 5);
            for (i, request) in requests.iter().enumerate() {
                if i < 2 {
                    let q = request.as_ref().expect("both documents have this page");
                    assert_eq!(q.output, format!("{}/diff_result_page_[{}].png", images_dir, i));
                    assert_eq!(q.threshold_milli, 100);
                } else {
                    assert!(request.is_none());
                }
            }
            vec![true; requests.len()]
        },
        _ => panic!("the compares must run after both exports"),
    };
    assert!(matches!(state, PipelineState::Diffing { .. }));

    let (state, action) = pd.step(state, PipelineEvent::ComparesFinished { compare_ok });
    match &action {
        PipelineAction::AssembleDocument { output_path, pages } => {
            assert_eq!(output_path, "out.pdf");
            // max(2, 5) pages: two combined rasters, three passthroughs.
            assert_eq!(pages.len(), 5);
            assert_eq!(pages[0], format!("{}/diff_result_page_[0].png", images_dir));
            assert_eq!(pages[1], format!("{}/diff_result_page_[1].png", images_dir));
            for i in 2..5 {
                assert_eq!(pages[i], format!("{}/diff_[{}].jpg", diff_dir, i));
            }
        },
        _ => panic!("assembly must follow the compares"),
    }

    let (state, action) = pd.step(state, PipelineEvent::AssembleFinished);
    assert!(matches!(&action, PipelineAction::RemoveWorkspace { .. }));
    assert!(matches!(&state, PipelineState::CleaningUp { failure: None, .. }));

    let (state, action) = pd.step(state, PipelineEvent::WorkspaceRemoved { removed: true });
    assert!(matches!(action, PipelineAction::Finish));
    assert!(matches!(state, PipelineState::Done));
}

#[test]
fn equal_page_counts_assemble_one_page_per_pair() {
    let pd = run();
    let (state, _) = pd.start("/tmp");
    let (state, _) = pd.step(state, PipelineEvent::WorkspaceReady);
    let base = export("base.pdf", "/ws/base", "base", 3);
    let (state, _) = pd.step(state, PipelineEvent::ExportFinished { result: base });
    let revision = export("revision.pdf", "/ws/diff", "diff", 3);
    let (state, action) = pd.step(state, PipelineEvent::ExportFinished { result: revision });
    let count = match &action {
        PipelineAction::RunCompares { requests } => {
            assert!(requests.iter().all(|r| r.is_some()));
            requests.len()
        },
        _ => panic!("the compares must run after both exports"),
    };
    assert_eq!(count, 3);
    let (_, action) = pd.step(state, PipelineEvent::ComparesFinished {
        compare_ok: vec![true; count],
    });
    match &action {
        PipelineAction::AssembleDocument { pages, .. } => assert_eq!(pages.len(), 3),
        _ => panic!("assembly must follow the compares"),
    }
}

#[test]
fn export_failure_still_cleans_up_before_failing() {
    let pd = run();
    let (state, _) = pd.start("/tmp");
    let root = match &state {
        PipelineState::CreatingWorkspace { ws } => ws.root.clone(),
        _ => panic!("the run must begin by creating the workspace"),
    };
    let (state, _) = pd.step(state, PipelineEvent::WorkspaceReady);
    let error = PipelineError::DocumentOpen { path: "base.pdf".to_string() };
    let (state, action) = pd.step(state, PipelineEvent::ExportFailed { error });
    match &action {
        PipelineAction::RemoveWorkspace { root: r } => assert_eq!(r, &root),
        _ => panic!("cleanup must be attempted before the run fails"),
    }
    assert!(matches!(&state, PipelineState::CleaningUp { failure: Some(_), .. }));
    // A failed removal is logged only; the run still terminates as failed.
    let (state, action) = pd.step(state, PipelineEvent::WorkspaceRemoved { removed: false });
    assert!(matches!(action, PipelineAction::Finish));
    assert!(matches!(state, PipelineState::Failed {
        error: PipelineError::DocumentOpen { .. },
    }));
}

#[test]
fn compare_failure_drops_only_its_page() {
    let pd = run();
    let (state, _) = pd.start("/tmp");
    let (state, _) = pd.step(state, PipelineEvent::WorkspaceReady);
    let base = export("base.pdf", "/ws/base", "base", 2);
    let (state, _) = pd.step(state, PipelineEvent::ExportFinished { result: base });
    let revision = export("revision.pdf", "/ws/diff", "diff", 2);
    let (state, _) = pd.step(state, PipelineEvent::ExportFinished { result: revision });
    let (state, action) = pd.step(state, PipelineEvent::ComparesFinished {
        compare_ok: vec![false, true],
    });
    match &action {
        PipelineAction::AssembleDocument { pages, .. } => {
            assert_eq!(pages.len(), 1);
            assert!(pages[0].ends_with("diff_result_page_[1].png"));
        },
        _ => panic!("assembly must follow the compares"),
    }
    assert!(matches!(state, PipelineState::Assembling { .. }));
}
