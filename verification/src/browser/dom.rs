//! What the shell's own elements mean: which window one belongs to, which edge a
//! resize handle drags, and what the cursor looks like over it.

use crate::browser::scene::ResizeDirection;
use crate::compositor::cursors::{shape_name, SHAPE_COUNT};
use crate::text::{
    ascii_upper, contains_text, holds, parse_unsigned, same, unsigned, uppered,
};
use vstd::prelude::*;

verus! {

/// The window or surface that an element's attribute names.
pub fn element_id(attribute: &Option<String>) -> (id: Option<u64>)
    ensures
        match id {
            Some(value) => attribute is Some && unsigned(attribute->0@, u64::MAX as int) == Some(
                value as int,
            ),
            None => attribute is None || unsigned(attribute->0@, u64::MAX as int) is None,
        },
{
    match attribute {
        Some(text) => parse_unsigned(text.as_str(), u64::MAX),
        None => None,
    }
}

/// The workspace that a menu button's attribute names.
pub fn element_workspace(attribute: &Option<String>) -> (workspace: Option<u32>)
    ensures
        match workspace {
            Some(value) => attribute is Some && unsigned(attribute->0@, u32::MAX as int) == Some(
                value as int,
            ),
            None => attribute is None || unsigned(attribute->0@, u32::MAX as int) is None,
        },
{
    match attribute {
        Some(text) => match parse_unsigned(text.as_str(), u32::MAX as u64) {
            Some(value) => Some(value as u32),
            None => None,
        },
        None => None,
    }
}

/// The edge or corner that a resize handle of a class drags. The corners come
/// first: their names hold those of the edges.
pub open spec fn direction_of(class: Seq<char>) -> Option<ResizeDirection> {
    if holds(class, "resize-top-left"@) {
        Some(ResizeDirection::TopLeft)
    } else if holds(class, "resize-top-right"@) {
        Some(ResizeDirection::TopRight)
    } else if holds(class, "resize-bottom-left"@) {
        Some(ResizeDirection::BottomLeft)
    } else if holds(class, "resize-bottom-right"@) {
        Some(ResizeDirection::BottomRight)
    } else if holds(class, "resize-top"@) {
        Some(ResizeDirection::Top)
    } else if holds(class, "resize-bottom"@) {
        Some(ResizeDirection::Bottom)
    } else if holds(class, "resize-left"@) {
        Some(ResizeDirection::Left)
    } else if holds(class, "resize-right"@) {
        Some(ResizeDirection::Right)
    } else {
        None
    }
}

/// The edge or corner that a resize handle of a class drags.
pub fn resize_direction(class: &str) -> (direction: Option<ResizeDirection>)
    ensures
        direction == direction_of(class@),
{
    if contains_text(class, "resize-top-left") {
        Some(ResizeDirection::TopLeft)
    } else if contains_text(class, "resize-top-right") {
        Some(ResizeDirection::TopRight)
    } else if contains_text(class, "resize-bottom-left") {
        Some(ResizeDirection::BottomLeft)
    } else if contains_text(class, "resize-bottom-right") {
        Some(ResizeDirection::BottomRight)
    } else if contains_text(class, "resize-top") {
        Some(ResizeDirection::Top)
    } else if contains_text(class, "resize-bottom") {
        Some(ResizeDirection::Bottom)
    } else if contains_text(class, "resize-left") {
        Some(ResizeDirection::Left)
    } else if contains_text(class, "resize-right") {
        Some(ResizeDirection::Right)
    } else {
        None
    }
}

/// The cursor that a resize in a direction shows.
pub open spec fn direction_cursor(direction: ResizeDirection) -> Seq<char> {
    match direction {
        ResizeDirection::TopLeft | ResizeDirection::BottomRight => "nwse-resize"@,
        ResizeDirection::TopRight | ResizeDirection::BottomLeft => "nesw-resize"@,
        ResizeDirection::Top | ResizeDirection::Bottom => "ns-resize"@,
        ResizeDirection::Left | ResizeDirection::Right => "ew-resize"@,
    }
}

/// The cursor that a resize in a direction shows.
pub fn cursor_for(direction: ResizeDirection) -> (name: &'static str)
    ensures
        name@ == direction_cursor(direction),
{
    match direction {
        ResizeDirection::TopLeft | ResizeDirection::BottomRight => "nwse-resize",
        ResizeDirection::TopRight | ResizeDirection::BottomLeft => "nesw-resize",
        ResizeDirection::Top | ResizeDirection::Bottom => "ns-resize",
        ResizeDirection::Left | ResizeDirection::Right => "ew-resize",
    }
}

/// What an element is, as far as the cursor over it goes.
#[derive(Debug)]
pub struct Element {
    pub tag: String,
    /// The class of the resize handle it belongs to.
    pub resize_class: Option<String>,
    /// Whether it belongs to something that can be clicked.
    pub interactive: bool,
    /// Whether it belongs to a titlebar.
    pub titlebar: bool,
    /// Whether it belongs to the box a surface is drawn in.
    pub surface: bool,
}

/// What an [`Element`] says.
#[verifier::ext_equal]
pub struct ElementView {
    pub tag: Seq<char>,
    pub resize_class: Option<Seq<char>>,
    pub interactive: bool,
    pub titlebar: bool,
    pub surface: bool,
}

impl View for Element {
    type V = ElementView;

    open spec fn view(&self) -> ElementView {
        ElementView {
            tag: self.tag@,
            resize_class: self.resize_class.deep_view(),
            interactive: self.interactive,
            titlebar: self.titlebar,
            surface: self.surface,
        }
    }
}

/// The cursor over a resize handle of a class.
pub open spec fn handle_cursor(class: Seq<char>) -> Seq<char> {
    if holds(class, "resize-top-left"@) || holds(class, "resize-bottom-right"@) {
        "nwse-resize"@
    } else if holds(class, "resize-top-right"@) || holds(class, "resize-bottom-left"@) {
        "nesw-resize"@
    } else if holds(class, "resize-top"@) || holds(class, "resize-bottom"@) {
        "ns-resize"@
    } else if holds(class, "resize-left"@) || holds(class, "resize-right"@) {
        "ew-resize"@
    } else {
        "nwse-resize"@
    }
}

/// The cursor over a client's pixels: the client's own, as far as the shell can
/// draw it.
pub open spec fn guest_cursor(guest: Seq<char>) -> Seq<char> {
    if guest == "pointer"@ || guest == "text"@ || guest == "ns-resize"@ || guest == "ew-resize"@
        || guest == "nwse-resize"@ || guest == "nesw-resize"@ || guest == "grab"@ || guest
        == "grabbing"@ {
        guest
    } else {
        "default"@
    }
}

/// The cursor over an element, given the one a client asked for.
pub open spec fn element_cursor(element: ElementView, guest: Seq<char>) -> Seq<char> {
    if element.resize_class is Some {
        handle_cursor(element.resize_class->0)
    } else if element.interactive {
        "pointer"@
    } else if element.titlebar {
        "grab"@
    } else if uppered(element.tag) == "CANVAS"@ || element.surface {
        guest_cursor(guest)
    } else {
        "default"@
    }
}

fn handle_icon(class: &str) -> (name: &'static str)
    ensures
        name@ == handle_cursor(class@),
{
    if contains_text(class, "resize-top-left") || contains_text(class, "resize-bottom-right") {
        return "nwse-resize";
    }
    if contains_text(class, "resize-top-right") || contains_text(class, "resize-bottom-left") {
        return "nesw-resize";
    }
    if contains_text(class, "resize-top") || contains_text(class, "resize-bottom") {
        return "ns-resize";
    }
    if contains_text(class, "resize-left") || contains_text(class, "resize-right") {
        return "ew-resize";
    }
    "nwse-resize"
}

fn guest_icon(guest: &str) -> (name: &'static str)
    ensures
        name@ == guest_cursor(guest@),
{
    if same(guest, "pointer") {
        "pointer"
    } else if same(guest, "text") {
        "text"
    } else if same(guest, "ns-resize") {
        "ns-resize"
    } else if same(guest, "ew-resize") {
        "ew-resize"
    } else if same(guest, "nwse-resize") {
        "nwse-resize"
    } else if same(guest, "nesw-resize") {
        "nesw-resize"
    } else if same(guest, "grab") {
        "grab"
    } else if same(guest, "grabbing") {
        "grabbing"
    } else {
        "default"
    }
}

/// The cursor to draw over an element: a resize handle's arrow, a hand over what
/// can be clicked, a grab over a titlebar, and over a surface what its client
/// asked for.
pub fn element_cursor_icon(element: &Element, guest: &str) -> (name: &'static str)
    ensures
        name@ == element_cursor(element@, guest@),
{
    if let Some(class) = &element.resize_class {
        return handle_icon(class.as_str());
    }
    if element.interactive {
        return "pointer";
    }
    if element.titlebar {
        return "grab";
    }
    let upper = ascii_upper(element.tag.as_str());
    if same(upper.as_str(), "CANVAS") || element.surface {
        return guest_icon(guest);
    }
    "default"
}

/// The element a click belongs to: the nearest of those that hold the release
/// which also holds the press, which is where the browser itself fires it. Given
/// is, from the released element outwards, which of them hold the press; nothing
/// where none does, which is a drag rather than a click.
pub fn clicked_element(holds_press: &Vec<bool>) -> (at: Option<usize>)
    ensures
        match at {
            Some(i) => i < holds_press@.len() && holds_press@[i as int] && forall|j: int|
                0 <= j < i ==> !(#[trigger] holds_press@[j]),
            None => forall|j: int| 0 <= j < holds_press@.len() ==> !(#[trigger] holds_press@[j]),
        },
{
    let mut i: usize = 0;
    while i < holds_press.len()
        invariant
            i <= holds_press@.len(),
            forall|j: int| 0 <= j < i ==> !(#[trigger] holds_press@[j]),
        decreases holds_press@.len() - i,
    {
        if holds_press[i] {
            return Some(i);
        }
        i += 1;
    }
    None
}

/// Whatever the cursor is over, what is drawn is one of the shapes that the theme
/// is read for.
pub proof fn the_theme_has_every_cursor(element: ElementView, guest: Seq<char>)
    ensures
        exists|i: int|
            0 <= i < SHAPE_COUNT && #[trigger] shape_name(i) == element_cursor(element, guest),
{
    assert(shape_name(0) == "default"@);
    assert(shape_name(1) == "pointer"@);
    assert(shape_name(2) == "text"@);
    assert(shape_name(3) == "grab"@);
    assert(shape_name(4) == "grabbing"@);
    assert(shape_name(5) == "ns-resize"@);
    assert(shape_name(6) == "ew-resize"@);
    assert(shape_name(7) == "nwse-resize"@);
    assert(shape_name(8) == "nesw-resize"@);
}

/// A handle that names one edge or corner shows the cursor of the resize it
/// starts.
pub proof fn a_handle_shows_its_own_cursor(class: Seq<char>)
    requires
        direction_of(class) is Some,
        !(holds(class, "resize-bottom-right"@) && (holds(class, "resize-top-right"@) || holds(
            class,
            "resize-bottom-left"@,
        ))),
    ensures
        handle_cursor(class) == direction_cursor(direction_of(class)->0),
{
}

/// What a resize handle is called in its class.
pub open spec fn handle_name(direction: ResizeDirection) -> Seq<char> {
    match direction {
        ResizeDirection::Top => "resize-top"@,
        ResizeDirection::Bottom => "resize-bottom"@,
        ResizeDirection::Left => "resize-left"@,
        ResizeDirection::Right => "resize-right"@,
        ResizeDirection::TopLeft => "resize-top-left"@,
        ResizeDirection::TopRight => "resize-top-right"@,
        ResizeDirection::BottomLeft => "resize-bottom-left"@,
        ResizeDirection::BottomRight => "resize-bottom-right"@,
    }
}

/// Whether a direction is a corner's rather than an edge's.
pub open spec fn is_corner(direction: ResizeDirection) -> bool {
    direction == ResizeDirection::TopLeft || direction == ResizeDirection::TopRight || direction
        == ResizeDirection::BottomLeft || direction == ResizeDirection::BottomRight
}

/// The direction straight across a window.
pub open spec fn across(direction: ResizeDirection) -> ResizeDirection {
    match direction {
        ResizeDirection::Top => ResizeDirection::Bottom,
        ResizeDirection::Bottom => ResizeDirection::Top,
        ResizeDirection::Left => ResizeDirection::Right,
        ResizeDirection::Right => ResizeDirection::Left,
        ResizeDirection::TopLeft => ResizeDirection::BottomRight,
        ResizeDirection::TopRight => ResizeDirection::BottomLeft,
        ResizeDirection::BottomLeft => ResizeDirection::TopRight,
        ResizeDirection::BottomRight => ResizeDirection::TopLeft,
    }
}

/// A handle drags the corner that its class names, and where it names none the
/// edge. A class that names neither drags nothing.
pub proof fn a_handle_drags_what_it_names(class: Seq<char>, direction: ResizeDirection)
    ensures
        holds(class, handle_name(direction)) && (forall|other: ResizeDirection|
            other != direction && (is_corner(other) || !is_corner(direction)) ==> !holds(
                class,
                #[trigger] handle_name(other),
            )) ==> direction_of(class) == Some(direction),
        direction_of(class) == Some(direction) ==> holds(class, handle_name(direction)),
        direction_of(class) is None ==> !holds(class, handle_name(direction)),
{
    assert(handle_name(ResizeDirection::Top) == "resize-top"@);
    assert(handle_name(ResizeDirection::Bottom) == "resize-bottom"@);
    assert(handle_name(ResizeDirection::Left) == "resize-left"@);
    assert(handle_name(ResizeDirection::Right) == "resize-right"@);
    assert(handle_name(ResizeDirection::TopLeft) == "resize-top-left"@);
    assert(handle_name(ResizeDirection::TopRight) == "resize-top-right"@);
    assert(handle_name(ResizeDirection::BottomLeft) == "resize-bottom-left"@);
    assert(handle_name(ResizeDirection::BottomRight) == "resize-bottom-right"@);
}

/// Two directions show the same cursor where they are the same or straight across
/// from each other, and nowhere else.
pub proof fn a_cursor_shows_the_line_of_a_resize(one: ResizeDirection, other: ResizeDirection)
    ensures
        direction_cursor(one) == direction_cursor(other) <==> one == other || one == across(other),
{
    reveal_strlit("nwse-resize");
    reveal_strlit("nesw-resize");
    reveal_strlit("ns-resize");
    reveal_strlit("ew-resize");
    assert("nwse-resize"@.len() == 11 && "nesw-resize"@.len() == 11);
    assert("ns-resize"@.len() == 9 && "ew-resize"@.len() == 9);
    assert("nwse-resize"@[1] == 'w' && "nesw-resize"@[1] == 'e');
    assert("ns-resize"@[0] == 'n' && "ew-resize"@[0] == 'e');
}

/// A client's wish for a cursor counts over its own pixels and nowhere else: there
/// every shape of the theme is drawn as it is asked for, and what the theme lacks
/// is drawn as an arrow. The chrome has a hand over what can be clicked and a grab
/// over a titlebar that holds no such thing.
pub proof fn a_client_has_its_cursor_over_its_pixels(
    element: ElementView,
    guest: Seq<char>,
    other: Seq<char>,
)
    ensures
        element_cursor(element, guest) != element_cursor(element, other) ==> element.resize_class
            is None && !element.interactive && !element.titlebar,
        element.resize_class is None && !element.interactive && !element.titlebar
            && element.surface ==> forall|i: int|
            0 <= i < SHAPE_COUNT && #[trigger] shape_name(i) == guest ==> element_cursor(
                element,
                guest,
            ) == guest,
        element.resize_class is None && !element.interactive && !element.titlebar
            && element.surface && (forall|i: int|
            0 <= i < SHAPE_COUNT ==> #[trigger] shape_name(i) != guest) ==> element_cursor(
            element,
            guest,
        ) == "default"@,
        element.resize_class is None && element.interactive ==> element_cursor(element, guest)
            == "pointer"@,
        element.resize_class is None && !element.interactive && element.titlebar
            ==> element_cursor(element, guest) == "grab"@,
{
    assert(shape_name(1) == "pointer"@);
    assert(shape_name(2) == "text"@);
    assert(shape_name(3) == "grab"@);
    assert(shape_name(4) == "grabbing"@);
    assert(shape_name(5) == "ns-resize"@);
    assert(shape_name(6) == "ew-resize"@);
    assert(shape_name(7) == "nwse-resize"@);
    assert(shape_name(8) == "nesw-resize"@);
}

} // verus!
