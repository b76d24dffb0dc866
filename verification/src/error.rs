use vstd::prelude::*;

verus! {

/// Why a surface and a geometry cannot make a console.
#[derive(Clone, Copy, Debug, PartialEq, Eq, Structural)]
pub enum GeometryError {
    /// The grid has no column or no row.
    EmptyGrid,
    /// The surface holds fewer than `width * height * 2` bytes.
    SurfaceTooSmall,
}

} // verus!
