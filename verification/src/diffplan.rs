//! Resolving page plans into compare requests, and collecting the final
//! ordered raster sequence.
//!
//! A `Diff` plan becomes one pixel-compare request; a `Passthrough` plan
//! needs no work beyond reusing the raster the export already wrote.  After
//! the compares ran, the final page sequence keeps every passthrough raster
//! and every combined raster whose compare succeeded; a page whose compare
//! failed is dropped from the output rather than aborting the run.

use vstd::prelude::*;
use crate::align::{align_post, OutputPagePlan};
use crate::export::PageRaster;
use crate::options::CompareOptions;
use crate::paths::{diff_file_name, diff_file_name_spec, join_path, joined_path};

verus! {

/// One pixel-compare invocation: the two raster paths, the path the
/// combined raster is written to, and the options of the run.  Dimension
/// checking and anti-aliasing detection are always off.
#[derive(Debug)]
pub struct DiffRequest {
    pub left: String,
    pub right: String,
    pub output: String,
    pub threshold_milli: u32,
    pub alpha_milli: u32,
    pub diff_colour: [u32; 4],
    pub do_not_check_dimensions: bool,
    pub detect_anti_aliased_pixels: bool,
}

/// The request (or its absence) that resolves the plan at index `i`: a
/// `Diff` plan compares its two rasters into the diff raster of index `i`
/// under the run's options; a `Passthrough` plan needs no request.
pub open spec fn diff_request_matches(
    plan: OutputPagePlan,
    request: Option<DiffRequest>,
    dir: Seq<char>,
    i: int,
    options: CompareOptions,
) -> bool {
    match plan {
        OutputPagePlan::Diff { base, revision } => {
            &&& request matches Some(q)
            &&& q.left@ == base.path@
            &&& q.right@ == revision.path@
            &&& q.output@ == joined_path(dir, diff_file_name_spec(i as nat))
            &&& q.threshold_milli == options.threshold_milli
            &&& q.alpha_milli == options.alpha_milli
            &&& q.diff_colour == options.diff_colour
            &&& q.do_not_check_dimensions == true
            &&& q.detect_anti_aliased_pixels == false
        },
        OutputPagePlan::Passthrough { .. } => request is None,
    }
}

/// Builds the compare request of every `Diff` plan, in plan order.
pub fn diff_requests(
    plans: &Vec<OutputPagePlan>,
    diff_images_dir: &str,
    options: &CompareOptions,
) -> (r: Vec<Option<DiffRequest>>)
    ensures
        r@.len() == plans@.len(),
        forall|i: int|
            0 <= i < plans@.len() ==> diff_request_matches(
                plans@[i],
                #[trigger] r@[i],
                diff_images_dir@,
                i,
                *options,
            ),
{
    let mut requests: Vec<Option<DiffRequest>> = Vec::new();
    let mut index: usize = 0;
    while index < plans.len()
        invariant
            index <= plans@.len(),
            requests@.len() == index,
            forall|i: int|
                0 <= i < index ==> diff_request_matches(
                    plans@[i],
                    #[trigger] requests@[i],
                    diff_images_dir@,
                    i,
                    *options,
                ),
        decreases plans@.len() - index,
    {
        match &plans[index] {
            OutputPagePlan::Diff { base, revision } => {
                let name = diff_file_name(index);
                let output = join_path(diff_images_dir, name.as_str());
                requests.push(
                    Some(
                        DiffRequest {
                            left: base.path.clone(),
                            right: revision.path.clone(),
                            output,
                            threshold_milli: options.threshold_milli,
                            alpha_milli: options.alpha_milli,
                            diff_colour: options.diff_colour,
                            do_not_check_dimensions: true,
                            detect_anti_aliased_pixels: false,
                        },
                    ),
                );
            },
            OutputPagePlan::Passthrough { .. } => {
                requests.push(None);
            },
        }
        index = index + 1;
    }
    requests
}

/// The final ordered sequence of output raster paths, given which compares
/// succeeded: every passthrough raster is kept, every combined raster of a
/// successful compare is kept under the diff raster path of its index, and
/// every page whose compare failed is dropped.
pub open spec fn collected_pages(
    plans: Seq<OutputPagePlan>,
    compare_ok: Seq<bool>,
    dir: Seq<char>,
) -> Seq<Seq<char>>
    decreases plans.len(),
{
    if plans.len() == 0 {
        Seq::empty()
    } else {
        let rest = collected_pages(plans.drop_last(), compare_ok.drop_last(), dir);
        match plans.last() {
            OutputPagePlan::Passthrough { source } => rest.push(source.path@),
            OutputPagePlan::Diff { .. } => {
                if compare_ok.last() {
                    rest.push(joined_path(dir, diff_file_name_spec((plans.len() - 1) as nat)))
                } else {
                    rest
                }
            },
        }
    }
}

/// Collects the final ordered output raster paths from the plans and the
/// per-page compare outcomes (`compare_ok[i]` is ignored for passthrough
/// plans).
pub fn collect_pages(
    plans: &Vec<OutputPagePlan>,
    compare_ok: &Vec<bool>,
    diff_images_dir: &str,
) -> (r: Vec<String>)
    requires
        compare_ok@.len() == plans@.len(),
    ensures
        r@.len() == collected_pages(plans@, compare_ok@, diff_images_dir@).len(),
        forall|k: int|
            0 <= k < r@.len() ==> #[trigger] r@[k]@ == collected_pages(
                plans@,
                compare_ok@,
                diff_images_dir@,
            )[k],
{
    let ghost all = collected_pages(plans@, compare_ok@, diff_images_dir@);
    let mut pages: Vec<String> = Vec::new();
    let mut index: usize = 0;
    while index < plans.len()
        invariant
            index <= plans@.len(),
            compare_ok@.len() == plans@.len(),
            pages@.len() == collected_pages(
                plans@.take(index as int),
                compare_ok@.take(index as int),
                diff_images_dir@,
            ).len(),
            forall|k: int|
                0 <= k < pages@.len() ==> #[trigger] pages@[k]@ == collected_pages(
                    plans@.take(index as int),
                    compare_ok@.take(index as int),
                    diff_images_dir@,
                )[k],
        decreases plans@.len() - index,
    {
        proof {
            assert(plans@.take(index as int + 1).drop_last() =~= plans@.take(index as int));
            assert(compare_ok@.take(index as int + 1).drop_last() =~= compare_ok@.take(
                index as int,
            ));
            assert(plans@.take(index as int + 1).last() == plans@[index as int]);
        }
        match &plans[index] {
            OutputPagePlan::Diff { .. } => {
                if compare_ok[index] {
                    let name = diff_file_name(index);
                    let path = join_path(diff_images_dir, name.as_str());
                    pages.push(path);
                }
            },
            OutputPagePlan::Passthrough { source } => {
                pages.push(source.path.clone());
            },
        }
        index = index + 1;
    }
    proof {
        assert(plans@.take(plans@.len() as int) =~= plans@);
        assert(compare_ok@.take(plans@.len() as int) =~= compare_ok@);
    }
    pages
}

/// What a run whose compares all succeed collects: one output page per
/// plan, the `Diff` pages under the diff raster path of their index and the
/// passthrough pages as their source rasters.
pub proof fn lemma_collected_all_ok(
    plans: Seq<OutputPagePlan>,
    compare_ok: Seq<bool>,
    dir: Seq<char>,
)
    requires
        compare_ok.len() == plans.len(),
        forall|i: int| 0 <= i < compare_ok.len() ==> #[trigger] compare_ok[i],
    ensures
        collected_pages(plans, compare_ok, dir).len() == plans.len(),
        forall|i: int|
            0 <= i < plans.len() ==> collected_pages(plans, compare_ok, dir)[i] == (match (
            #[trigger] plans[i]) {
                OutputPagePlan::Diff { .. } => joined_path(dir, diff_file_name_spec(i as nat)),
                OutputPagePlan::Passthrough { source } => source.path@,
            }),
    decreases plans.len(),
{
    if plans.len() > 0 {
        lemma_collected_all_ok(plans.drop_last(), compare_ok.drop_last(), dir);
        assert forall|i: int|
            0 <= i < plans.len() implies collected_pages(plans, compare_ok, dir)[i] == (match (
        plans[i]) {
            OutputPagePlan::Diff { .. } => joined_path(dir, diff_file_name_spec(i as nat)),
            OutputPagePlan::Passthrough { source } => source.path@,
        }) by {
            if i < plans.len() - 1 {
                assert(plans.drop_last()[i] == plans[i]);
            }
        }
    }
}

/// For every pair of inputs whose page compares all succeed, the output has
/// exactly `max(baseCount, revisionCount)` pages; every output page at an
/// index at or beyond `min(baseCount, revisionCount)` is the corresponding
/// source page's raster, passed through unchanged with no diff applied; and
/// every earlier page is the combined raster of its index.
pub proof fn lemma_output_page_count(
    base: Seq<PageRaster>,
    revision: Seq<PageRaster>,
    plans: Seq<OutputPagePlan>,
    compare_ok: Seq<bool>,
    dir: Seq<char>,
)
    requires
        align_post(base, revision, plans),
        compare_ok.len() == plans.len(),
        forall|i: int| 0 <= i < compare_ok.len() ==> #[trigger] compare_ok[i],
    ensures
        collected_pages(plans, compare_ok, dir).len() == if base.len() >= revision.len() {
            base.len()
        } else {
            revision.len()
        },
        forall|i: int|
            revision.len() <= i < base.len() ==> collected_pages(plans, compare_ok, dir)[i]
                == base[i].path@,
        forall|i: int|
            base.len() <= i < revision.len() ==> collected_pages(plans, compare_ok, dir)[i]
                == revision[i].path@,
        forall|i: int|
            0 <= i < base.len() && i < revision.len() ==> collected_pages(plans, compare_ok, dir)[i]
                == joined_path(dir, diff_file_name_spec(i as nat)),
{
    lemma_collected_all_ok(plans, compare_ok, dir);
    assert forall|i: int|
        revision.len() <= i < base.len() implies collected_pages(plans, compare_ok, dir)[i]
        == base[i].path@ by {
        assert(plans[i] == (OutputPagePlan::Passthrough { source: base[i] }));
    }
    assert forall|i: int|
        base.len() <= i < revision.len() implies collected_pages(plans, compare_ok, dir)[i]
        == revision[i].path@ by {
        assert(plans[i] == (OutputPagePlan::Passthrough { source: revision[i] }));
    }
    assert forall|i: int|
        0 <= i < base.len() && i < revision.len() implies collected_pages(plans, compare_ok, dir)[i]
        == joined_path(dir, diff_file_name_spec(i as nat)) by {
        assert(plans[i] == (OutputPagePlan::Diff { base: base[i], revision: revision[i] }));
    }
}

} // verus!
