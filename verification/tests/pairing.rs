use pdeef::align::{align, OutputPagePlan};
use pdeef::diffplan::{collect_pages, diff_requests};
use pdeef::export::{PageRaster, PdfExportResult};
use pdeef::options::CompareOptions;
use pdeef::render::{RasterCache, RenderSpec};

fn raster(path: &str) -> PageRaster {
    PageRaster { path: path.to_string(), width_px: 612, height_px: 792 }
}

fn rasters(prefix: &str, count: usize) -> Vec<PageRaster> {
    (0..count).map(|i| raster(&format!("/ws/{}/{}_[{}].jpg", prefix, prefix, i))).collect()
}

fn options() -> CompareOptions {
    CompareOptions { threshold_milli: 100, alpha_milli: 600, diff_colour: [218, 165, 32, 255] }
}

#[test]
fn equal_length_inputs_pair_every_page() {
    // Three pages against three pages: three plans, all of them diffs.
    let base = rasters("base", 3);
    let revision = rasters("diff", 3);
    let plans = align(&base, &revision);
    assert_eq!(plans.len(), 3);
    for (i, plan) in plans.iter().enumerate() {
        match plan {
            OutputPagePlan::Diff { base: b, revision: r } => {
                assert_eq!(b.path, format!("/ws/base/base_[{}].jpg", i));
                assert_eq!(r.path, format!("/ws/diff/diff_[{}].jpg", i));
            },
            OutputPagePlan::Passthrough { .. } => panic!("expected a diff plan"),
        }
    }
}

#[test]
fn shorter_base_carries_revision_pages_through() {
    // Two pages against five: five plans, the first two diffs, the last
    // three passthroughs of the revision's own pages.
    let base = rasters("base", 2);
    let revision = rasters("diff", 5);
    let plans = align(&base, &revision);
    assert_eq!(plans.len(), 5);
    for (i, plan) in plans.iter().enumerate() {
        if i < 2 {
            assert!(matches!(plan, OutputPagePlan::Diff { .. }));
        } else {
            match plan {
                OutputPagePlan::Passthrough { source } => {
                    assert_eq!(source.path, format!("/ws/diff/diff_[{}].jpg", i));
                },
                OutputPagePlan::Diff { .. } => panic!("expected a passthrough plan"),
            }
        }
    }
}

#[test]
fn shorter_revision_carries_base_pages_through() {
    let base = rasters("base", 4);
    let revision = rasters("diff", 1);
    let plans = align(&base, &revision);
    assert_eq!(plans.len(), 4);
    assert!(matches!(&plans[0], OutputPagePlan::Diff { .. }));
    for i in 1..4 {
        match &plans[i] {
            OutputPagePlan::Passthrough { source } => {
                assert_eq!(source.path, format!("/ws/base/base_[{}].jpg", i));
            },
            OutputPagePlan::Diff { .. } => panic!("expected a passthrough plan"),
        }
    }
}

#[test]
fn empty_inputs_yield_no_plans() {
    let plans = align(&Vec::new(), &Vec::new());
    assert_eq!(plans.len(), 0);
}

#[test]
fn aligning_twice_plans_identical_pages() {
    // The planning stage is a pure function of its inputs: a second run
    // over the same exports pairs exactly the same rasters.
    let base = rasters("base", 2);
    let revision = rasters("diff", 5);
    let first = align(&base, &revision);
    let second = align(&base, &revision);
    assert_eq!(first.len(), second.len());
    for (p, q) in first.iter().zip(second.iter()) {
        match (p, q) {
            (
                OutputPagePlan::Diff { base: b1, revision: r1 },
                OutputPagePlan::Diff { base: b2, revision: r2 },
            ) => {
                assert_eq!(b1.path, b2.path);
                assert_eq!(r1.path, r2.path);
            },
            (
                OutputPagePlan::Passthrough { source: s1 },
                OutputPagePlan::Passthrough { source: s2 },
            ) => {
                assert_eq!(s1.path, s2.path);
            },
            _ => panic!("the two runs disagree on a plan"),
        }
    }
}

#[test]
fn requests_carry_the_run_options() {
    let base = rasters("base", 1);
    let revision = rasters("diff", 2);
    let plans = align(&base, &revision);
    let requests = diff_requests(&plans, "/ws/diff_images", &options());
    assert_eq!(requests.len(), 2);
    let q = requests[0].as_ref().expect("a diff plan needs a request");
    assert_eq!(q.left, "/ws/base/base_[0].jpg");
    assert_eq!(q.right, "/ws/diff/diff_[0].jpg");
    assert_eq!(q.output, "/ws/diff_images/diff_result_page_[0].png");
    assert_eq!(q.threshold_milli, 100);
    assert_eq!(q.alpha_milli, 600);
    assert_eq!(q.diff_colour, [218, 165, 32, 255]);
    assert!(q.do_not_check_dimensions);
    assert!(!q.detect_anti_aliased_pixels);
    assert!(requests[1].is_none());
}

#[test]
fn raising_the_threshold_reaches_the_comparison() {
    // The sensitivity handed to the pixel comparison is exactly the run's
    // threshold, so raising it from 0.1 to 0.9 changes every request.
    let base = rasters("base", 1);
    let revision = rasters("diff", 1);
    let plans = align(&base, &revision);
    let insensitive = CompareOptions { threshold_milli: 900, ..options() };
    let requests = diff_requests(&plans, "/ws/diff_images", &insensitive);
    assert_eq!(requests[0].as_ref().unwrap().threshold_milli, 900);
}

#[test]
fn collects_every_page_of_a_successful_run() {
    let base = rasters("base", 2);
    let revision = rasters("diff", 5);
    let plans = align(&base, &revision);
    let pages = collect_pages(&plans, &vec![true; 5], "/ws/diff_images");
    assert_eq!(pages.len(), 5);
    assert_eq!(pages[0], "/ws/diff_images/diff_result_page_[0].png");
    assert_eq!(pages[1], "/ws/diff_images/diff_result_page_[1].png");
    for i in 2..5 {
        assert_eq!(pages[i], format!("/ws/diff/diff_[{}].jpg", i));
    }
}

#[test]
fn drops_a_page_whose_compare_failed() {
    let base = rasters("base", 3);
    let revision = rasters("diff", 3);
    let plans = align(&base, &revision);
    let pages = collect_pages(&plans, &vec![true, false, true], "/ws/diff_images");
    assert_eq!(pages.len(), 2);
    assert_eq!(pages[0], "/ws/diff_images/diff_result_page_[0].png");
    assert_eq!(pages[1], "/ws/diff_images/diff_result_page_[2].png");
}

#[test]
fn render_cache_reuses_a_geometry() {
    let mut cache = RasterCache::new();
    let a = cache.get_or_insert(612, 792);
    assert_eq!(a, RenderSpec { target_width: 612, maximum_height: 792 });
    let b = cache.get_or_insert(612, 792);
    assert_eq!(a, b);
    let c = cache.get_or_insert(595, 842);
    assert_eq!(c, RenderSpec { target_width: 595, maximum_height: 842 });
}

#[test]
fn export_plan_follows_page_order_and_geometry() {
    let sizes = vec![(612u16, 792u16), (612, 792), (595, 842)];
    let plans = pdeef::export::plan_export("/ws/base", "base", &sizes);
    assert_eq!(plans.len(), 3);
    assert_eq!(plans[0].output_path, "/ws/base/base_[0].jpg");
    assert_eq!(plans[1].output_path, "/ws/base/base_[1].jpg");
    assert_eq!(plans[2].output_path, "/ws/base/base_[2].jpg");
    assert_eq!(plans[0].config, RenderSpec { target_width: 612, maximum_height: 792 });
    assert_eq!(plans[1].config, plans[0].config);
    assert_eq!(plans[2].config, RenderSpec { target_width: 595, maximum_height: 842 });
}

#[test]
fn export_result_keeps_source_identity() {
    let result = PdfExportResult { original_pdf: "in.pdf".to_string(), pages: rasters("base", 2) };
    assert_eq!(result.original_pdf, "in.pdf");
    assert_eq!(result.pages.len(), 2);
    assert_eq!(result.pages[1].path, "/ws/base/base_[1].jpg");
}
