//! The render-configuration cache.
//!
//! Rasterizing a page needs a render configuration sized to the page's
//! geometry.  Documents commonly repeat one page size on every page, so one
//! export keeps a cache keyed by the page geometry and reuses the
//! configuration for every page that shares it.  The cache is owned by one
//! export call; nothing is shared between runs.

use vstd::prelude::*;
use std::collections::HashMap;

verus! {

broadcast use vstd::std_specs::hash::group_hash_axioms;

/// The plain render configuration for one page geometry: the raster is
/// rendered at the page's width, capped at the page's height.
#[derive(Clone, Copy, PartialEq, Eq, Structural, Debug)]
pub struct RenderSpec {
    pub target_width: u16,
    pub maximum_height: u16,
}

/// The configuration a page of geometry `w` by `h` (in whole points) is
/// rendered with.
pub open spec fn render_spec_for(w: u16, h: u16) -> RenderSpec {
    RenderSpec { target_width: w, maximum_height: h }
}

/// The cache key of a page geometry: width and height packed into one word.
pub open spec fn geometry_key(w: u16, h: u16) -> u64 {
    (w as u64 * 0x10000 + h as u64) as u64
}

/// Memoizes the render configuration per page geometry within one export.
pub struct RasterCache {
    pub configs: HashMap<u64, RenderSpec>,
}

impl RasterCache {
    /// Every cached entry is the configuration determined by its geometry.
    pub open spec fn wf(self) -> bool {
        forall|k: u64| #[trigger]
            self.configs@.contains_key(k) ==> self.configs@[k] == render_spec_for(
                (k / 0x10000) as u16,
                (k % 0x10000) as u16,
            )
    }

    /// The geometries the cache has seen so far.
    pub open spec fn keys(self) -> Set<u64> {
        self.configs@.dom()
    }

    /// An empty cache, made once per document export.
    pub fn new() -> (r: RasterCache)
        ensures
            r.wf(),
            r.keys() == Set::<u64>::empty(),
    {
        RasterCache { configs: HashMap::new() }
    }

    /// Looks the geometry up, creating and caching its configuration on a
    /// miss.  The result is always exactly the configuration determined by
    /// the geometry, and the geometry is cached afterwards.
    pub fn get_or_insert(&mut self, w: u16, h: u16) -> (r: RenderSpec)
        requires
            old(self).wf(),
        ensures
            final(self).wf(),
            r == render_spec_for(w, h),
            final(self).keys() == old(self).keys().insert(geometry_key(w, h)),
    {
        let key: u64 = w as u64 * 0x10000 + h as u64;
        proof {
            assert(key / 0x10000 == w && key % 0x10000 == h) by (nonlinear_arith)
                requires
                    key == w as u64 * 0x10000 + h as u64,
                    w <= 0xffff,
                    h <= 0xffff,
            ;
        }
        match self.configs.get(&key) {
            Some(config) => {
                let r = *config;
                proof {
                    assert(self.keys() =~= old(self).keys().insert(geometry_key(w, h)));
                }
                r
            },
            None => {
                let config = RenderSpec { target_width: w, maximum_height: h };
                self.configs.insert(key, config);
                proof {
                    assert(self.keys() =~= old(self).keys().insert(geometry_key(w, h)));
                }
                config
            },
        }
    }
}

} // verus!
