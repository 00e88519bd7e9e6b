use vstd::prelude::*;

use crate::colour::Colour;

verus! {

/// The process-wide "clear" background colour.
pub open spec fn spec_clear_colour() -> Colour {
    Colour { r: 25, g: 20, b: 70 }
}

/// The process-wide colour of panel borders.
pub open spec fn spec_border_colour() -> Colour {
    Colour { r: 20, g: 20, b: 20 }
}

/// The process-wide "clear" background colour.
pub fn clear_colour() -> (c: Colour)
    ensures
        c == spec_clear_colour(),
{
    Colour { r: 25, g: 20, b: 70 }
}

/// The process-wide colour of panel borders.
pub fn border_colour() -> (c: Colour)
    ensures
        c == spec_border_colour(),
{
    Colour { r: 20, g: 20, b: 20 }
}

} // verus!
