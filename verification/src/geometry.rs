//! The vocabulary (ids, geometry, errors) that every other module speaks.

use vstd::prelude::*;

verus! {

/// Identifies a surface for the lifetime of a connection.
///
/// Allocated by the compositor; the browser never invents one.
#[derive(Debug, Clone, Copy, PartialEq, Eq, Hash, Structural)]
pub struct SurfaceId(pub u64);

/// Pixel dimensions of a surface or output.
#[derive(Debug, Clone, Copy, PartialEq, Eq, Structural)]
pub struct Size {
    pub width: u32,
    pub height: u32,
}

/// A position in surface-local pixels.
///
/// Wayland pointer coordinates are sub-pixel, so each coordinate is a double;
/// it is held as its IEEE 754 bit pattern, which is what travels on the wire.
#[derive(Debug, Clone, Copy, PartialEq, Eq, Structural)]
pub struct Point {
    pub x: u64,
    pub y: u64,
}

/// An axis-aligned rectangle in surface-local pixels, used for damage regions.
#[derive(Debug, Clone, Copy, PartialEq, Eq, Structural)]
pub struct Rect {
    pub x: i32,
    pub y: i32,
    pub width: u32,
    pub height: u32,
}

/// Errors surfaced by the Webland backend.
#[derive(Debug)]
pub enum Error {
    /// A feature that is not there yet, by name.
    NotImplemented(&'static str),
}

impl DeepView for SurfaceId {
    type V = SurfaceId;

    open spec fn deep_view(&self) -> SurfaceId {
        *self
    }
}

impl DeepView for Size {
    type V = Size;

    open spec fn deep_view(&self) -> Size {
        *self
    }
}

impl DeepView for Point {
    type V = Point;

    open spec fn deep_view(&self) -> Point {
        *self
    }
}

impl DeepView for Rect {
    type V = Rect;

    open spec fn deep_view(&self) -> Rect {
        *self
    }
}

} // verus!
