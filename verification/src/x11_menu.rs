//! The window menu that an X11 client asks for by a message to the root window.
use vstd::prelude::*;

use crate::geometry::Point;
use crate::handlers::xwayland::{as_signed, signed};

verus! {

/// The position out of the five data words of the message: the second and the third, in root
/// coordinates, which are signed. The first is the device.
pub fn position_of(data: [u32; 5]) -> (at: Point)
    ensures
        at.x == signed(data@[1]),
        at.y == signed(data@[2]),
{
    Point { x: as_signed(data[1]), y: as_signed(data[2]) }
}

/// The menu is asked for at the place that the message names, left of and above the origin too.
pub proof fn the_menu_is_where_the_message_says(data: [u32; 5], at: Point)
    requires
        call_ensures(position_of, (data,), at),
    ensures
        (at.x - data@[1]) % 0x1_0000_0000 == 0,
        (at.y - data@[2]) % 0x1_0000_0000 == 0,
{
}

} // verus!
