//! Per-project settings: the named variant configurations that drive the
//! image transformer and the sync flows.

use vstd::prelude::*;

verus! {

/// Parameters of one derived variant.  `format` selects the encoder
/// (`avif`, `webp`, `png`, `jpg`/`jpeg`; `original` or absent re-encodes in
/// the source family; anything else falls back to JPEG).  `fit` selects the
/// resize rule when both `width` and `height` are present.  `quality` is
/// carried but not applied to the encoders.
#[derive(Debug)]
pub struct VariantConfig {
    pub format: Option<String>,
    pub quality: Option<u8>,
    pub width: Option<u32>,
    pub height: Option<u32>,
    pub max_width: Option<u32>,
    pub max_height: Option<u32>,
    pub fit: Option<String>,
}

impl VariantConfig {
    /// A configuration that requests no resizing and the source format.
    pub fn passthrough() -> (r: VariantConfig)
        ensures
            r.format is None,
            r.quality is None,
            r.width is None,
            r.height is None,
            r.max_width is None,
            r.max_height is None,
            r.fit is None,
    {
        VariantConfig {
            format: None,
            quality: None,
            width: None,
            height: None,
            max_width: None,
            max_height: None,
            fit: None,
        }
    }
}

/// The settings document of a project: the map from variant name to its
/// configuration, held as a vector of pairs with pairwise-distinct names.
#[derive(Debug)]
pub struct ProjectSettings {
    pub variants: Option<Vec<(String, VariantConfig)>>,
}

/// The variant names of a settings vector.
pub open spec fn variant_names(v: Seq<(String, VariantConfig)>) -> Seq<Seq<char>> {
    v.map_values(|p: (String, VariantConfig)| p.0@)
}

/// Names are pairwise distinct, as keys of a map must be.
pub open spec fn distinct_names(v: Seq<(String, VariantConfig)>) -> bool {
    forall|i: int, j: int| 0 <= i < j < v.len() ==> v[i].0@ != v[j].0@
}

impl ProjectSettings {
    /// A settings document with no variants at all.
    pub fn empty() -> (r: ProjectSettings)
        ensures
            r.variants is None,
    {
        ProjectSettings { variants: None }
    }

    /// The configured variants, or the empty vector when none are configured.
    pub open spec fn spec_variant_list(&self) -> Seq<(String, VariantConfig)> {
        match self.variants {
            Option::Some(v) => v@,
            Option::None => Seq::empty(),
        }
    }

    /// True when the document defines at least one variant.
    pub open spec fn spec_has_variants(&self) -> bool {
        self.spec_variant_list().len() > 0
    }
}

} // verus!
