//! The scratch workspace of one run.
//!
//! Every run owns a uniquely named directory tree under the system's
//! temporary root, with one subdirectory for the base rasters, one for the
//! revision rasters and one for the combined diff rasters.  The tree is
//! created at pipeline start and removed, best effort, at pipeline end.
//! The unique name keeps concurrent runs on one host apart.

use vstd::prelude::*;
use crate::paths::{join_path, joined_path};

verus! {

/// The directory layout of one run's scratch storage.  A plain value
/// record: the directories themselves are created and removed by whoever
/// performs the pipeline's actions.
#[derive(Clone, Debug)]
pub struct ScratchWorkspace {
    pub run_id: String,
    pub root: String,
    pub base_dir: String,
    pub diff_dir: String,
    pub diff_images_dir: String,
}

/// The workspace lies under `tmp_root`, named by its 36-character run
/// identifier, with the three fixed subdirectories.
pub open spec fn workspace_wf(ws: ScratchWorkspace, tmp_root: Seq<char>) -> bool {
    &&& ws.run_id@.len() == 36
    &&& ws.root@ == joined_path(tmp_root, ws.run_id@)
    &&& ws.base_dir@ == joined_path(ws.root@, "base"@)
    &&& ws.diff_dir@ == joined_path(ws.root@, "diff"@)
    &&& ws.diff_images_dir@ == joined_path(ws.root@, "diff_images"@)
}

/// Relies on `uuid::Uuid::new_v4` and its `Display` form: a fresh random
/// version-4 UUID, written as 36 characters of hyphenated lowercase hex.
/// The value is random; nothing beyond its shape holds of every outcome.
#[verifier::external_body]
fn fresh_run_id() -> (r: String)
    ensures
        r@.len() == 36,
{
    uuid::Uuid::new_v4().to_string()
}

impl ScratchWorkspace {
    /// An equal copy of this workspace record.
    pub fn duplicate(&self) -> (r: ScratchWorkspace)
        ensures
            r == *self,
    {
        ScratchWorkspace {
            run_id: self.run_id.clone(),
            root: self.root.clone(),
            base_dir: self.base_dir.clone(),
            diff_dir: self.diff_dir.clone(),
            diff_images_dir: self.diff_images_dir.clone(),
        }
    }
}

/// Plans a fresh scratch workspace under `tmp_root`, rooted at a randomly
/// named directory.
pub fn scratch_workspace(tmp_root: &str) -> (ws: ScratchWorkspace)
    ensures
        workspace_wf(ws, tmp_root@),
{
    let run_id = fresh_run_id();
    let root = join_path(tmp_root, run_id.as_str());
    let base_dir = join_path(root.as_str(), "base");
    let diff_dir = join_path(root.as_str(), "diff");
    let diff_images_dir = join_path(root.as_str(), "diff_images");
    ScratchWorkspace { run_id, root, base_dir, diff_dir, diff_images_dir }
}

} // verus!
