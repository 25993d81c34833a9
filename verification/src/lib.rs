//! The engine of an interactive explorer of the Mandelbrot set: everything
//! that a frame decides and draws, except the floating-point arithmetic on
//! plane coordinates and the window itself.
//!
//! - [`pixel`]: positions and rectangles in pixel space.
//! - [`transform`]: how far along the view a pixel lies, as an exact ratio.
//! - [`raster`]: the parallel rendering of a view into a pixel buffer, and
//!   the outline of a selection drawn over a copy of it.
//! - [`selection`]: the state machine that turns a mouse drag into a
//!   rectangle.
//! - [`escape`]: the escape-time classification of a point, for a step
//!   function that the caller supplies.
//! - [`budget`]: the saturating iteration budget.
//! - [`frame`]: the update that ties these together once per frame.

pub mod budget;
pub mod escape;
pub mod frame;
pub mod pixel;
pub mod raster;
pub mod selection;
pub mod transform;
