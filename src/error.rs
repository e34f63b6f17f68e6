use vstd::prelude::*;

verus! {

/// A derived range of a geometry that cannot be drawn on its canvas.
#[derive(Clone, Copy, Debug, PartialEq, Eq, Structural)]
pub enum GeometryError {
    /// The canvas has no columns or no rows.
    EmptyCanvas,
    /// The canvas has more pixels than memory can index.
    CanvasTooLarge,
    /// The space between the top ground planes is wider than the canvas.
    GapWiderThanCanvas,
    /// A via fence band extends past the canvas edge. The opening is
    /// centered with any odd column on its right, so the left band is the
    /// one that meets the edge first.
    FencePastEdge,
    /// The copper, core and soldermask layers are taller than the canvas.
    StackTallerThanCanvas,
    /// The soldermask would be grown from rows below the bottom of the canvas.
    SolderMaskBelowCanvas,
    /// A via pad extends past an edge of the canvas.
    PadPastEdge,
}

/// The sentence that names the offending quantity of each error.
pub open spec fn description(e: GeometryError) -> Seq<char> {
    match e {
        GeometryError::EmptyCanvas => "canvas width or height is zero"@,
        GeometryError::CanvasTooLarge => "canvas has too many pixels"@,
        GeometryError::GapWiderThanCanvas => "ground gap is wider than the canvas"@,
        GeometryError::FencePastEdge => "fence band extends past canvas edge"@,
        GeometryError::StackTallerThanCanvas => "layer stack is taller than the canvas"@,
        GeometryError::SolderMaskBelowCanvas => "soldermask is thicker than the layers below it"@,
        GeometryError::PadPastEdge => "via pad extends past canvas edge"@,
    }
}

impl GeometryError {
    /// A sentence that names the offending quantity.
    pub fn describe(&self) -> (r: &'static str)
        ensures
            r@ == description(*self),
    {
        match self {
            GeometryError::EmptyCanvas => "canvas width or height is zero",
            GeometryError::CanvasTooLarge => "canvas has too many pixels",
            GeometryError::GapWiderThanCanvas => "ground gap is wider than the canvas",
            GeometryError::FencePastEdge => "fence band extends past canvas edge",
            GeometryError::StackTallerThanCanvas => "layer stack is taller than the canvas",
            GeometryError::SolderMaskBelowCanvas => "soldermask is thicker than the layers below it",
            GeometryError::PadPastEdge => "via pad extends past canvas edge",
        }
    }
}

} // verus!
