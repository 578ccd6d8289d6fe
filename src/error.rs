use vstd::prelude::*;

verus! {

/// The ways a rasterizer or framebuffer operation can be refused.
#[derive(Debug, Clone, Copy, PartialEq, Eq, Structural)]
pub enum RasterizerError {
    /// Rendering or popping with an empty render-target stack.
    NoRenderTarget,
    /// Starting a frame while render targets are still pushed.
    RenderTargetUnfinished,
    /// Asking a framebuffer for rows it does not have.
    InvalidScanlineRange,
}

impl RasterizerError {
    /// A sentence describing the error.
    pub fn message(&self) -> (r: &'static str)
        ensures
            *self == RasterizerError::NoRenderTarget ==> r@ == "No render target pushed to the stack!"@,
            *self == RasterizerError::RenderTargetUnfinished ==> r@
                == "Render target still present on the stack!"@,
            *self == RasterizerError::InvalidScanlineRange ==> r@ == "Invalid scanline range!"@,
    {
        let r = match self {
            RasterizerError::NoRenderTarget => "No render target pushed to the stack!",
            RasterizerError::RenderTargetUnfinished => "Render target still present on the stack!",
            RasterizerError::InvalidScanlineRange => "Invalid scanline range!",
        };
        proof {
            reveal_strlit("No render target pushed to the stack!");
            reveal_strlit("Render target still present on the stack!");
            reveal_strlit("Invalid scanline range!");
        }
        r
    }
}

} // verus!
