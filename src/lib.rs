// Editing a closed polygon whose edges are straight segments, cubic Bézier
// segments or circular arcs, under continuity and shape constraints. Points
// and lengths are type parameters: the library decides which rule applies
// where, propagates corrections around the outline and rolls failed edits
// back, while the arithmetic on points is supplied by the caller.
pub mod continuity;
pub mod outline;
pub mod path;
pub mod polygon;
pub mod raster;
pub mod rules;
pub mod state;
pub mod vertex;
