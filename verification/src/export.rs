//! Planning one document export.
//!
//! Exporting a document rasterizes every page, in document order, into the
//! scratch workspace.  The decisions — which render configuration each page
//! gets and which file each raster is written to — are pure functions of the
//! page geometries, the target directory and the page prefix, and are planned
//! here; the rendering engine then only executes the plan page by page.

use vstd::prelude::*;
use crate::paths::{join_path, joined_path, page_file_name, page_file_name_spec};
use crate::render::{render_spec_for, RasterCache, RenderSpec};

verus! {

/// One rendered page: the raster file it was written to and its pixel
/// dimensions.  A plain value record; nothing mutates a raster once written.
#[derive(Clone, Debug)]
pub struct PageRaster {
    pub path: String,
    pub width_px: u32,
    pub height_px: u32,
}

/// The outcome of exporting one document: every page's raster, indexed
/// `0..N-1` in source page order, together with the source document's path.
#[derive(Clone, Debug)]
pub struct PdfExportResult {
    pub original_pdf: String,
    pub pages: Vec<PageRaster>,
}

/// The plan for rasterizing one page: the render configuration for its
/// geometry and the path its raster is written to.
#[derive(Clone, Debug)]
pub struct PageRenderPlan {
    pub config: RenderSpec,
    pub output_path: String,
}

/// Plans the export of one document whose pages have the given geometries
/// (width and height in whole points, in document order).  Page `i` is
/// rendered with the configuration for its own geometry and written to
/// `{out_dir}/{page_prefix}_[{i}].jpg`.  Equal geometries share one cached
/// configuration within the call.
pub fn plan_export(out_dir: &str, page_prefix: &str, page_sizes: &Vec<(u16, u16)>) -> (r: Vec<
    PageRenderPlan,
>)
    ensures
        r@.len() == page_sizes@.len(),
        forall|i: int|
            0 <= i < r@.len() ==> {
                &&& (#[trigger] r@[i]).config == render_spec_for(
                    page_sizes@[i].0,
                    page_sizes@[i].1,
                )
                &&& r@[i].output_path@ == joined_path(
                    out_dir@,
                    page_file_name_spec(page_prefix@, i as nat),
                )
            },
{
    let mut cache = RasterCache::new();
    let mut plans: Vec<PageRenderPlan> = Vec::new();
    let mut index: usize = 0;
    while index < page_sizes.len()
        invariant
            index <= page_sizes@.len(),
            plans@.len() == index,
            cache.wf(),
            forall|i: int|
                0 <= i < index ==> {
                    &&& (#[trigger] plans@[i]).config == render_spec_for(
                        page_sizes@[i].0,
                        page_sizes@[i].1,
                    )
                    &&& plans@[i].output_path@ == joined_path(
                        out_dir@,
                        page_file_name_spec(page_prefix@, i as nat),
                    )
                },
        decreases page_sizes@.len() - index,
    {
        let (w, h) = page_sizes[index];
        let config = cache.get_or_insert(w, h);
        let name = page_file_name(page_prefix, index);
        let output_path = join_path(out_dir, name.as_str());
        plans.push(PageRenderPlan { config, output_path });
        index = index + 1;
    }
    plans
}

} // verus!
