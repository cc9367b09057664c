//! The image module type: how a blur placeholder is produced for an image.

use vstd::prelude::*;

verus! {

/// When and how an image's blur placeholder is produced.
#[derive(Clone, Copy, Debug, PartialEq, Eq, PartialOrd, Ord, Hash, Structural)]
pub enum BlurPlaceholderMode {
    /// Do not generate a blur placeholder at all.
    NoPlaceholder,
    /// Generate a blur placeholder as data url and embed it directly into the
    /// JavaScript code. This needs to compute the blur placeholder eagerly and
    /// has a higher computation overhead.
    DataUrl,
    /// Avoid generating a blur placeholder eagerly and uses `/_next/image`
    /// instead to compute one on demand. This changes the UX slightly (blur
    /// placeholder is shown later than it should be) and should
    /// only be used for development.
    NextImageUrl,
}

/// Module type that analyzes images and offers some meta information like
/// width, height and blur placeholder as export from the module.
#[derive(Clone, Copy, Debug, PartialEq, Eq, Structural)]
pub struct StructuredImageModuleType {
    pub blur_placeholder_mode: BlurPlaceholderMode,
}

impl StructuredImageModuleType {
    pub fn new(blur_placeholder_mode: BlurPlaceholderMode) -> (r: StructuredImageModuleType)
        ensures
            r.blur_placeholder_mode == blur_placeholder_mode,
    {
        StructuredImageModuleType { blur_placeholder_mode }
    }
}

} // verus!
