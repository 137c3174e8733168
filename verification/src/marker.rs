//! The target marker controller: a click moves the marker under the cursor.

use vstd::prelude::*;
use crate::agent::Transform;
use crate::vector::Vec3;

verus! {

/// A point of the window, in thousandths of a pixel.
#[derive(Clone, Copy, Debug, PartialEq, Eq, Structural)]
pub struct ScreenPoint {
    pub x: i64,
    pub y: i64,
}

/// Where the cursor was last seen: on the screen and in the world, or nowhere
/// while it is outside the window.
#[derive(Clone, Copy, Debug, PartialEq, Eq, Structural)]
pub struct MouseState {
    pub screen: Option<ScreenPoint>,
    pub world: Option<Vec3>,
}

impl MouseState {
    /// The cursor, where it is known, lies in the world.
    pub open spec fn wf(self) -> bool {
        self.world matches Some(p) ==> p.in_world()
    }

    /// The state of a cursor that has not been seen.
    pub fn outside() -> (mouse: MouseState)
        ensures
            mouse == (MouseState { screen: None, world: None }),
    {
        MouseState { screen: None, world: None }
    }

    /// Takes in what the window reports for this tick: the cursor's place on
    /// the screen with the point of the world under it, or nothing.
    pub fn track(&mut self, cursor: Option<(ScreenPoint, Vec3)>)
        ensures
            *final(self) == match cursor {
                Some((screen, world)) => MouseState { screen: Some(screen), world: Some(world) },
                None => MouseState { screen: None, world: None },
            },
    {
        match cursor {
            Some((screen, world)) => {
                self.screen = Some(screen);
                self.world = Some(world);
            },
            None => {
                self.screen = None;
                self.world = None;
            },
        }
    }
}

/// The marker after one tick of input: moved to the cursor where the
/// secondary button was released and the cursor is known, else as it was.
pub open spec fn marker_after_click(marker: Transform, released: bool, cursor: Option<Vec3>)
    -> Transform {
    if released {
        match cursor {
            Some(position) => Transform { position, orientation: marker.orientation },
            None => marker,
        }
    } else {
        marker
    }
}

/// Moves the marker under the cursor when the secondary button is released.
pub fn move_marker_on_click(marker: &mut Transform, released: bool, mouse: &MouseState)
    ensures
        *final(marker) == marker_after_click(*old(marker), released, mouse.world),
{
    if released {
        match mouse.world {
            Some(position) => {
                marker.position = position;
            },
            None => {},
        }
    }
}

} // verus!
