//! Animated spinner frames for terminal user interfaces.
//!
//! Every spinner is stateless: it is configured with a monotonically
//! increasing `tick` counter and renders one frame of its animation as rows
//! of styled character cells.
use vstd::prelude::*;

pub mod bar_spinner;
pub mod cell;
pub mod circle_spinner;
pub mod flux_spinner;
pub mod linear_spinner;
pub mod rect_spinner;
pub mod rectangular_spinner;
pub mod square_spinner;

pub use bar_spinner::{BarMotion, BarOrientation, BarSpinner, BarStyle, BarTrack};
pub use cell::{Alignment, Cell, Color};
pub use circle_spinner::CircleSpinner;
pub use flux_spinner::FluxSpinner;
pub use linear_spinner::{Direction, Flow, LinearSpinner, LinearStyle};
pub use rect_spinner::{Centre, RectShape, RectSpinner, Spin};
pub use rectangular_spinner::RectangularSpinner;
pub use square_spinner::SquareSpinner;

verus! {

} // verus!
