//! The collaborators the layout engine needs from its environment: the
//! script evaluator for label callbacks, and the generic grid primitive.
use vstd::prelude::*;

use crate::diag::{SourceError, Span};
use crate::model::{centries_v, Content, ContentV, Func, Value};

verus! {

/// A finished, fixed-size laid-out fragment, as the environment's grid
/// primitive produces it. Opaque to this core.
#[derive(Clone, Copy, PartialEq, Eq, Structural, Hash, Debug)]
pub struct Frame(pub u64);

/// An available layout area a pass must fit content into. Carried through to
/// the grid primitive; opaque to this core.
#[derive(Clone, Copy, PartialEq, Eq, Structural, Hash, Debug)]
pub struct Regions {
    pub width: i64,
    pub height: i64,
}

/// How wide one grid column track is.
#[derive(Clone, Copy, PartialEq, Eq, Structural, Hash, Debug)]
pub enum TrackSizing {
    /// Sized to its contents.
    Auto,
    /// A fixed width in thousandths of a point.
    Fixed(i64),
}

/// A grid layout request: column tracks, a uniform row gutter, and the cells
/// in row-major order.
#[derive(PartialEq, Debug)]
pub struct GridNode {
    pub tracks: Vec<TrackSizing>,
    pub gutter: i64,
    pub cells: Vec<Content>,
}

/// Mathematical model of a [`GridNode`].
pub struct GridNodeV {
    pub tracks: Seq<TrackSizing>,
    pub gutter: i64,
    pub cells: Seq<ContentV>,
}

impl View for GridNode {
    type V = GridNodeV;

    open spec fn view(&self) -> GridNodeV {
        GridNodeV { tracks: self.tracks@, gutter: self.gutter, cells: centries_v(self.cells@) }
    }
}

/// What the layout engine asks of the surrounding engine. Nothing is assumed
/// of either call: the environment decides success, failure, and the shape
/// of every result, so the contracts of this core's own functions state what
/// holds whatever comes back.
pub trait World {
    /// Invoke a label callback on an item number, in a context detached from
    /// the caller's own evaluation stack; a cancellation or evaluation
    /// failure comes back as an ordinary error.
    fn call_func(&mut self, func: Func, span: Span, number: usize) -> Result<Value, SourceError>;

    /// Lay a grid out into the given regions, fragmenting it and returning
    /// one frame per region consumed.
    fn layout_grid(&mut self, grid: GridNode, regions: &Regions) -> Result<Vec<Frame>, SourceError>;
}

} // verus!
