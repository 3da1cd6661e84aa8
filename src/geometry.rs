use embedded_graphics::prelude::{Point, Size};
use embedded_graphics::primitives::Rectangle;
use vstd::prelude::*;

verus! {

/// The point of embedded-graphics (`geometry::Point`): its public fields `x` and `y`,
/// both `i32`, are read and written directly.
#[verifier::external_type_specification]
pub struct ExPoint(Point);

/// The size of embedded-graphics (`geometry::Size`): its public fields `width` and
/// `height`, both `u32`.
#[verifier::external_type_specification]
pub struct ExSize(Size);

/// The rectangle of embedded-graphics (`primitives::Rectangle`): its public fields
/// `top_left` (a point) and `size`.
#[verifier::external_type_specification]
pub struct ExRectangle(Rectangle);

} // verus!
