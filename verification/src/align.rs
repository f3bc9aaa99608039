//! Pairing the pages of the two exported documents.
//!
//! For every output index present in both documents the pair is compared; an
//! index present in only one document carries that document's page through
//! unchanged.  Trailing extra pages are therefore never dropped: a length
//! mismatch is a normal, expected case, not an error.

use vstd::prelude::*;
use crate::export::PageRaster;

verus! {

/// The decision for one output page position: compare the two rasters at
/// this index, or pass the sole available raster through unchanged.
#[derive(Clone, Debug)]
pub enum OutputPagePlan {
    Diff { base: PageRaster, revision: PageRaster },
    Passthrough { source: PageRaster },
}

impl PageRaster {
    /// An equal copy of this raster record.
    pub fn duplicate(&self) -> (r: PageRaster)
        ensures
            r == *self,
    {
        let r = PageRaster {
            path: self.path.clone(),
            width_px: self.width_px,
            height_px: self.height_px,
        };
        r
    }
}

/// Exactly the plans `align` returns for the given page sequences: one plan
/// per index up to the longer length, `Diff` where both documents have the
/// index, `Passthrough` of the longer document's page otherwise.
pub open spec fn align_post(
    base: Seq<PageRaster>,
    revision: Seq<PageRaster>,
    plans: Seq<OutputPagePlan>,
) -> bool {
    &&& plans.len() == if base.len() >= revision.len() {
        base.len()
    } else {
        revision.len()
    }
    &&& forall|i: int|
        0 <= i < base.len() && i < revision.len() ==> #[trigger] plans[i] == (OutputPagePlan::Diff {
            base: base[i],
            revision: revision[i],
        })
    &&& forall|i: int|
        revision.len() <= i < base.len() ==> #[trigger] plans[i]
            == (OutputPagePlan::Passthrough { source: base[i] })
    &&& forall|i: int|
        base.len() <= i < revision.len() ==> #[trigger] plans[i]
            == (OutputPagePlan::Passthrough { source: revision[i] })
}

/// Pairs the two raster sequences position by position.
///
/// Pure and total: for inputs of lengths `(m, r)` it returns exactly
/// `max(m, r)` plans, the first `min(m, r)` of them `Diff` plans pairing the
/// rasters at equal indices, and every later one a `Passthrough` of the
/// longer sequence's raster at its index.
pub fn align(base: &Vec<PageRaster>, revision: &Vec<PageRaster>) -> (plans: Vec<OutputPagePlan>)
    ensures
        align_post(base@, revision@, plans@),
{
    let base_count = base.len();
    let revision_count = revision.len();
    let pages_count = if base_count >= revision_count {
        base_count
    } else {
        revision_count
    };
    let mut plans: Vec<OutputPagePlan> = Vec::new();
    let mut index: usize = 0;
    while index < pages_count
        invariant
            index <= pages_count,
            base_count == base@.len(),
            revision_count == revision@.len(),
            pages_count == if base_count >= revision_count {
                base_count
            } else {
                revision_count
            },
            plans@.len() == index,
            forall|i: int|
                0 <= i < index && i < base_count && i < revision_count ==> #[trigger] plans@[i]
                    == (OutputPagePlan::Diff { base: base@[i], revision: revision@[i] }),
            forall|i: int|
                revision_count <= i < index && i < base_count ==> #[trigger] plans@[i]
                    == (OutputPagePlan::Passthrough { source: base@[i] }),
            forall|i: int|
                base_count <= i < index && i < revision_count ==> #[trigger] plans@[i]
                    == (OutputPagePlan::Passthrough { source: revision@[i] }),
        decreases pages_count - index,
    {
        if index < base_count && index < revision_count {
            plans.push(
                OutputPagePlan::Diff {
                    base: base[index].duplicate(),
                    revision: revision[index].duplicate(),
                },
            );
        } else if index >= base_count {
            plans.push(OutputPagePlan::Passthrough { source: revision[index].duplicate() });
        } else {
            plans.push(OutputPagePlan::Passthrough { source: base[index].duplicate() });
        }
        index = index + 1;
    }
    plans
}

/// The pairing policy is a function of the inputs alone: any two plan
/// sequences that `align` may return for the same inputs are equal.  With
/// every later stage pinned down by its own contract, rerunning the pipeline
/// on identical inputs and options therefore plans identical output pages,
/// the scratch workspace's unique name aside.
pub proof fn lemma_align_deterministic(
    base: Seq<PageRaster>,
    revision: Seq<PageRaster>,
    p1: Seq<OutputPagePlan>,
    p2: Seq<OutputPagePlan>,
)
    requires
        align_post(base, revision, p1),
        align_post(base, revision, p2),
    ensures
        p1 =~= p2,
{
    assert forall|i: int| 0 <= i < p1.len() implies p1[i] == p2[i] by {
        if i < base.len() && i < revision.len() {
            assert(p1[i] == (OutputPagePlan::Diff { base: base[i], revision: revision[i] }));
        } else if i < base.len() {
            assert(p1[i] == (OutputPagePlan::Passthrough { source: base[i] }));
        } else {
            assert(p1[i] == (OutputPagePlan::Passthrough { source: revision[i] }));
        }
    }
}

} // verus!
