//! Options of the compositing surface.
use vstd::prelude::*;

verus! {

/// Context options of the compositing surface.
#[derive(Clone, Copy, Debug, PartialEq, Eq)]
pub struct WebGlOptions {
    /// Whether the surface keeps an alpha channel.
    pub alpha: bool,
}

impl WebGlOptions {
    /// Options without an alpha channel.
    pub fn new() -> (o: WebGlOptions)
        ensures
            !o.alpha,
    {
        WebGlOptions { alpha: false }
    }
}

impl Default for WebGlOptions {
    fn default() -> (o: WebGlOptions)
        ensures
            !o.alpha,
    {
        WebGlOptions::new()
    }
}

} // verus!
