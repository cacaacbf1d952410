//! Where a window sits in the image that is streamed of it.

use crate::compositor::damage::{clip, clipped};
use crate::compositor::tracking::{known_id, Known};
use crate::geometry::{Rect, Size};
use crate::protocol::messages::Anchor;
use vstd::prelude::*;

verus! {

/// A rectangle in a surface's own coordinates.
#[derive(Debug, Clone, Copy, PartialEq, Eq, Structural)]
pub struct Geometry {
    pub x: i32,
    pub y: i32,
    pub width: i32,
    pub height: i32,
}

/// The window's own rectangle within its surface tree, which a decorated client
/// sets to exclude the shadow it draws around itself.
///
/// Falls back to the whole buffer for a client that sets no geometry: that brings
/// the shadow along, which still beats a black window.
pub fn window_geometry(declared: Option<Geometry>, buffer: Option<(i32, i32)>) -> (geometry: Option<
    Geometry,
>)
    ensures
        geometry == (match (declared, buffer) {
            (Some(rectangle), _) => Some(rectangle),
            (None, Some((width, height))) => Some(Geometry { x: 0, y: 0, width, height }),
            (None, None) => None,
        }),
{
    match declared {
        Some(rectangle) => Some(rectangle),
        None => match buffer {
            Some((width, height)) => Some(Geometry { x: 0, y: 0, width, height }),
            None => None,
        },
    }
}

/// Where the streamed image's top-left sits in the surface's own coordinates.
///
/// A surface with subsurfaces is composited, which crops to the window rectangle,
/// while one that draws into a single buffer is sent whole, shadow margin and
/// all. Everything that maps between browser pixels and client pixels has to know
/// which one it was.
pub fn image_origin(has_children: bool, geometry: Option<Geometry>) -> (origin: (i32, i32))
    ensures
        origin == (match geometry {
            Some(rectangle) => if has_children {
                (rectangle.x, rectangle.y)
            } else {
                (0i32, 0i32)
            },
            None => (0i32, 0i32),
        }),
{
    if !has_children {
        return (0, 0);
    }
    match geometry {
        Some(rectangle) => (rectangle.x, rectangle.y),
        None => (0, 0),
    }
}

/// The window itself within the streamed image: what the browser should show,
/// and nothing the client drew around it.
///
/// Clipped to the image, because a client is free to declare a geometry larger
/// than what it committed.
pub fn content_rect(geometry: Option<Geometry>, origin: (i32, i32), image: Size) -> (rect: Rect)
    requires
        geometry matches Some(r) ==> i32::MIN <= r.x - origin.0 <= i32::MAX && i32::MIN <= r.y
            - origin.1 <= i32::MAX,
    ensures
        match geometry {
            None => rect == (Rect { x: 0, y: 0, width: image.width, height: image.height }),
            Some(r) => (rect.x as int, rect.y as int, rect.width as int, rect.height as int)
                == clipped(
                ((r.x - origin.0) as i32, (r.y - origin.1) as i32),
                (r.width, r.height),
                image,
            ),
        },
{
    match geometry {
        None => Rect { x: 0, y: 0, width: image.width, height: image.height },
        Some(r) => clip((r.x - origin.0, r.y - origin.1), (r.width, r.height), image),
    }
}

/// Where a popup hangs: at its own place, on the surface it belongs to, where the
/// browser has been told about that one.
pub fn popup_anchor(known: &Known, parent: Option<u32>, x: i32, y: i32) -> (anchor: Option<Anchor>)
    requires
        known.valid(),
    ensures
        anchor == (match parent {
            Some(object) => match known_id(known@, object) {
                Some(id) => Some(Anchor { parent: id, x, y }),
                None => None,
            },
            None => None,
        }),
{
    match parent {
        Some(object) => match known.id_of(object) {
            Some(id) => Some(Anchor { parent: id, x, y }),
            None => None,
        },
        None => None,
    }
}

/// What an X window calls itself, where it says anything: an empty name is no
/// name.
pub fn x11_name(name: String) -> (said: Option<String>)
    ensures
        said == (if name@.len() > 0 {
            Some(name)
        } else {
            None
        }),
{
    if name.as_str().is_empty() {
        None
    } else {
        Some(name)
    }
}

/// How a surface's pixels are got at.
#[derive(Debug, Clone, Copy, PartialEq, Eq, Structural)]
pub enum Source {
    /// Render the whole tree into one image and read that back.
    Tree,
    /// Copy the shared memory the client committed.
    SharedMemory,
    /// Read the client's own GPU buffer back.
    Dmabuf,
}

/// How to capture a surface. A client with subsurfaces has to be composited,
/// which needs a renderer, and so does a GPU buffer; shared memory is copied as
/// it is.
pub fn capture_source(has_children: bool, shared_memory: bool, renderer: bool) -> (source: Option<
    Source,
>)
    ensures
        source == (if has_children {
            if renderer {
                Some(Source::Tree)
            } else {
                None
            }
        } else if shared_memory {
            Some(Source::SharedMemory)
        } else if renderer {
            Some(Source::Dmabuf)
        } else {
            None
        }),
{
    if has_children {
        if renderer {
            Some(Source::Tree)
        } else {
            None
        }
    } else if shared_memory {
        Some(Source::SharedMemory)
    } else if renderer {
        Some(Source::Dmabuf)
    } else {
        None
    }
}

/// Where a window lies in its picture and where the picture lies in the surface
/// add up to where the window says it lies: a window whose rectangle fits is
/// shown whole and in its place, whether the picture was composited, and so cut
/// to the window, or sent as the client drew it.
pub proof fn a_window_is_shown_where_it_lies(
    has_children: bool,
    declared: Geometry,
    image: Size,
    origin: (i32, i32),
    rect: Rect,
)
    requires
        call_ensures(image_origin, (has_children, Some(declared)), origin),
        call_ensures(content_rect, (Some(declared), origin, image), rect),
        declared.width >= 1 && declared.height >= 1,
        0 <= declared.x - origin.0 && declared.x - origin.0 + declared.width <= image.width,
        0 <= declared.y - origin.1 && declared.y - origin.1 + declared.height <= image.height,
        declared.x - origin.0 <= i32::MAX,
        declared.y - origin.1 <= i32::MAX,
    ensures
        origin.0 + rect.x == declared.x,
        origin.1 + rect.y == declared.y,
        rect.width == declared.width,
        rect.height == declared.height,
        has_children ==> rect.x == 0 && rect.y == 0,
        !has_children ==> origin == (0i32, 0i32),
{
    crate::compositor::damage::clipping_leaves_a_fitting_window_alone(
        ((declared.x - origin.0) as i32, (declared.y - origin.1) as i32),
        (declared.width, declared.height),
        image,
    );
}

/// A window that declares no rectangle is shown whole: its picture is the window.
pub proof fn an_undeclared_window_is_its_whole_picture(
    has_children: bool,
    buffer: (i32, i32),
    image: Size,
    geometry: Option<Geometry>,
    origin: (i32, i32),
    rect: Rect,
)
    requires
        call_ensures(window_geometry, (None, Some(buffer)), geometry),
        call_ensures(image_origin, (has_children, geometry), origin),
        call_ensures(content_rect, (None, origin, image), rect),
    ensures
        origin == (0i32, 0i32),
        geometry matches Some(g) && g.width == buffer.0 && g.height == buffer.1 && g.x == 0 && g.y
            == 0,
        rect == (Rect { x: 0, y: 0, width: image.width, height: image.height }),
{
}

/// What a client declares comes before what it drew.
pub proof fn what_is_declared_counts(
    declared: Geometry,
    buffer: Option<(i32, i32)>,
    geometry: Option<Geometry>,
)
    requires
        call_ensures(window_geometry, (Some(declared), buffer), geometry),
    ensures
        geometry == Some(declared),
{
}

/// A popup hangs at its own place on the surface it belongs to, under the id that
/// surface goes by; where the browser does not know that surface, it does not
/// hang at all.
pub proof fn a_popup_hangs_on_its_parent(
    known: &Known,
    i: int,
    parent: Option<u32>,
    x: i32,
    y: i32,
    anchor: Option<Anchor>,
)
    requires
        known.valid(),
        call_ensures(popup_anchor, (known, parent, x, y), anchor),
    ensures
        0 <= i < known@.len() && parent == Some(known@[i].object) ==> anchor == Some(
            Anchor { parent: known@[i].id, x, y },
        ),
        parent is None ==> anchor is None,
        parent is Some && (forall|j: int|
            0 <= j < known@.len() ==> (#[trigger] known@[j]).object != parent->0) ==> anchor is None,
{
    if 0 <= i < known@.len() && parent == Some(known@[i].object) {
        crate::compositor::laws::an_entry_is_found_by_its_id(known@, known.next, i);
    }
}

/// Every surface is captured where it can be: shared memory always, unless it has
/// surfaces of its own, and everything else where there is a renderer.
pub proof fn a_surface_is_captured_where_it_can_be(
    has_children: bool,
    shared_memory: bool,
    renderer: bool,
    source: Option<Source>,
)
    requires
        call_ensures(capture_source, (has_children, shared_memory, renderer), source),
    ensures
        source is None <==> !renderer && (has_children || !shared_memory),
        source == Some(Source::SharedMemory) <==> !has_children && shared_memory,
        source == Some(Source::Tree) <==> has_children && renderer,
{
}

} // verus!
