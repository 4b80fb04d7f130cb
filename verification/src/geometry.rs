//! Screen-space rectangles and partial window-geometry requests.
//!
//! A `WindowConfig` is a partial rectangle: each of x/y/width/height may be
//! requested or left to the window's current value.

use vstd::prelude::*;

verus! {

/// A partial rectangle request; each field is independently optional.
#[derive(Clone, Copy, Debug)]
pub struct WindowConfig {
    pub x: Option<i32>,
    pub y: Option<i32>,
    pub width: Option<i32>,
    pub height: Option<i32>,
}

/// A concrete screen rectangle: position and size.
#[derive(Clone, Copy, Debug, PartialEq, Eq, Structural)]
pub struct Rect {
    pub x: i32,
    pub y: i32,
    pub width: i32,
    pub height: i32,
}

impl WindowConfig {
    /// The rectangle that results from overlaying this request on a window
    /// whose current rectangle is `current`: requested fields win, omitted
    /// fields keep their current value.
    pub open spec fn spec_overlay(self, current: Rect) -> Rect {
        Rect {
            x: if self.x is Some { self.x->0 } else { current.x },
            y: if self.y is Some { self.y->0 } else { current.y },
            width: if self.width is Some { self.width->0 } else { current.width },
            height: if self.height is Some { self.height->0 } else { current.height },
        }
    }

    /// Overlay this request on the current rectangle of a window.
    pub fn overlay(&self, current: Rect) -> (r: Rect)
        ensures
            r == self.spec_overlay(current),
    {
        Rect {
            x: match self.x { Some(v) => v, None => current.x },
            y: match self.y { Some(v) => v, None => current.y },
            width: match self.width { Some(v) => v, None => current.width },
            height: match self.height { Some(v) => v, None => current.height },
        }
    }
}

/// Overlaying the same request twice gives the same rectangle as overlaying it
/// once: a second application on the resulting rectangle changes nothing.
pub proof fn lemma_overlay_idempotent(config: WindowConfig, current: Rect)
    ensures
        config.spec_overlay(config.spec_overlay(current)) == config.spec_overlay(current),
{
}

/// The rectangle substituted for omitted fields when a newly spawned process
/// has no pre-existing window to read them from.
pub open spec fn spec_default_spawn_rect() -> Rect {
    Rect { x: 0, y: 0, width: 800, height: 600 }
}

/// The fixed fallback rectangle for freshly spawned windows.
pub fn default_spawn_rect() -> (r: Rect)
    ensures
        r == spec_default_spawn_rect(),
{
    Rect { x: 0, y: 0, width: 800, height: 600 }
}

} // verus!
