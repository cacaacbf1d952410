//! Where in a message its parts travel. A browser and a compositor that were built
//! apart agree on these places, not only on reading back what they wrote.

use crate::geometry::{Point, Rect, Size, SurfaceId};
use crate::protocol::messages::{
    Anchor, ClientMessage, ClientMessageView, Codec, InputEvent, Press, ServerMessage,
    ServerMessageView, SurfaceCreated, SurfaceFrame, SurfaceFrameView, WindowRequest,
};
use crate::protocol::wire::{
    number, numbers_read_back, wire_items, wire_items_push, Bytes, Wire,
};
use vstd::prelude::*;
use vstd::utf8::encode_utf8;

verus! {

/// The number that so many bytes of a message make up, from a place on.
pub open spec fn number_at(bytes: Seq<u8>, from: int, width: int) -> nat {
    number(bytes.subrange(from, from + width))
}

/// A number travels byte by byte, the lowest first.
pub proof fn a_number_travels_lowest_byte_first(value: u32, long: u64)
    ensures
        u32::wire(value).len() == 4,
        value == u32::wire(value)[0] + 256 * u32::wire(value)[1] + 65536 * u32::wire(value)[2]
            + 16777216 * u32::wire(value)[3],
        u64::wire(long).len() == 8,
        long == number_at(u64::wire(long), 0, 4) + 4294967296 * number_at(u64::wire(long), 4, 4),
{
    numbers_read_back();
    reveal_with_fuel(number, 9);
    let bytes = u32::wire(value);
    assert(number(bytes) == value);
    assert(bytes.drop_first()[0] == bytes[1]);
    assert(bytes.drop_first().drop_first()[0] == bytes[2]);
    assert(bytes.drop_first().drop_first().drop_first()[0] == bytes[3]);
    let wide = u64::wire(long);
    assert(number(wide) == long);
    low_and_high(wide);
}

/// The front of a number's bytes is its low part, and the back its high part.
proof fn low_and_high(bytes: Seq<u8>)
    requires
        bytes.len() == 8,
    ensures
        number(bytes) == number_at(bytes, 0, 4) + 4294967296 * number_at(bytes, 4, 4),
{
    reveal_with_fuel(number, 9);
    let low = bytes.subrange(0, 4);
    let high = bytes.subrange(4, 8);
    let one = bytes.drop_first();
    let two = one.drop_first();
    let three = two.drop_first();
    assert(three.drop_first() =~= high);
    assert(one[0] == bytes[1] && two[0] == bytes[2] && three[0] == bytes[3]);
    assert(number(bytes) == bytes[0] + 256 * (bytes[1] + 256 * (bytes[2] + 256 * (bytes[3] + 256
        * number(high)))));
    let first = low.drop_first();
    let second = first.drop_first();
    let third = second.drop_first();
    assert(first[0] == low[1] && second[0] == low[2] && third[0] == low[3]);
    assert(third.drop_first() =~= seq![]);
    assert(number(low) == bytes[0] + 256 * (bytes[1] + 256 * (bytes[2] + 256 * bytes[3])));
}

/// A size travels as its width and then its height, a point as its way to the
/// right and then its way down.
pub proof fn the_way_across_comes_first(size: Size, point: Point)
    ensures
        Size::wire(size).len() == 8,
        number_at(Size::wire(size), 0, 4) == size.width,
        number_at(Size::wire(size), 4, 4) == size.height,
        Point::wire(point).len() == 16,
        number_at(Point::wire(point), 0, 8) == point.x,
        number_at(Point::wire(point), 8, 8) == point.y,
{
    numbers_read_back();
    assert(Size::wire(size).subrange(0, 4) =~= u32::wire(size.width));
    assert(Size::wire(size).subrange(4, 8) =~= u32::wire(size.height));
    assert(Point::wire(point).subrange(0, 8) =~= u64::wire(point.x));
    assert(Point::wire(point).subrange(8, 16) =~= u64::wire(point.y));
}

/// A rectangle travels as its corner and then its size, an anchor as the parent
/// and then the corner.
pub proof fn a_corner_comes_before_a_size(rect: Rect, anchor: Anchor)
    ensures
        Rect::wire(rect).len() == 16,
        number_at(Rect::wire(rect), 0, 4) == rect.x as u32,
        number_at(Rect::wire(rect), 4, 4) == rect.y as u32,
        number_at(Rect::wire(rect), 8, 4) == rect.width,
        number_at(Rect::wire(rect), 12, 4) == rect.height,
        Anchor::wire(anchor).len() == 16,
        number_at(Anchor::wire(anchor), 0, 8) == anchor.parent.0,
        number_at(Anchor::wire(anchor), 8, 4) == anchor.x as u32,
        number_at(Anchor::wire(anchor), 12, 4) == anchor.y as u32,
{
    numbers_read_back();
    assert(Rect::wire(rect).subrange(0, 4) =~= u32::wire(rect.x as u32));
    assert(Rect::wire(rect).subrange(4, 8) =~= u32::wire(rect.y as u32));
    assert(Rect::wire(rect).subrange(8, 12) =~= u32::wire(rect.width));
    assert(Rect::wire(rect).subrange(12, 16) =~= u32::wire(rect.height));
    assert(Anchor::wire(anchor).subrange(0, 8) =~= u64::wire(anchor.parent.0));
    assert(Anchor::wire(anchor).subrange(8, 12) =~= u32::wire(anchor.x as u32));
    assert(Anchor::wire(anchor).subrange(12, 16) =~= u32::wire(anchor.y as u32));
}

/// A text travels as the number of its bytes and then those bytes; a list as the
/// number of its items and then the items, one behind the other.
pub proof fn a_length_comes_before_what_it_counts(text: Seq<char>, list: Seq<Rect>, more: Rect)
    requires
        encode_utf8(text).len() <= u64::MAX,
        list.len() < u64::MAX,
    ensures
        number_at(String::wire(text), 0, 8) == encode_utf8(text).len(),
        String::wire(text).skip(8) == encode_utf8(text),
        number_at(<Vec<Rect>>::wire(list), 0, 8) == list.len(),
        <Vec<Rect>>::wire(list.push(more)).skip(8) == <Vec<Rect>>::wire(list).skip(8) + Rect::wire(
            more,
        ),
{
    numbers_read_back();
    assert(String::wire(text).subrange(0, 8) =~= u64::wire(encode_utf8(text).len() as u64));
    assert(String::wire(text).skip(8) =~= encode_utf8(text));
    let items = <Vec<Rect>>::wire(list);
    assert(items.subrange(0, 8) =~= u64::wire(list.len() as u64));
    assert(items.skip(8) =~= wire_items::<Rect>(list));
    let longer = <Vec<Rect>>::wire(list.push(more));
    assert(longer.skip(8) =~= wire_items::<Rect>(list.push(more)));
    wire_items_push::<Rect>(list, more);
}

/// What is one of a few things travels as its place among them.
pub proof fn a_choice_travels_as_its_place(state: Press, codec: Codec, request: WindowRequest)
    ensures
        number_at(Press::wire(state), 0, 4) == (if state == Press::Down {
            0nat
        } else {
            1nat
        }),
        number_at(Codec::wire(codec), 0, 4) == (match codec {
            Codec::Raw => 0nat,
            Codec::Deflate => 1nat,
            Codec::H264 => 2nat,
        }),
        number_at(WindowRequest::wire(request), 0, 4) == (match request {
            WindowRequest::Move => 0nat,
            WindowRequest::Maximize => 1nat,
            WindowRequest::Unmaximize => 2nat,
            WindowRequest::Minimize => 3nat,
        }),
{
    numbers_read_back();
    assert(Press::wire(state).subrange(0, 4) =~= Press::wire(state));
    assert(Codec::wire(codec).subrange(0, 4) =~= Codec::wire(codec));
    assert(WindowRequest::wire(request).subrange(0, 4) =~= WindowRequest::wire(request));
}

/// An announced surface travels with its id in front, then its size and its
/// content, then what it hangs on, and last whether it is decorated.
pub proof fn an_announcement_is_laid_out(created: SurfaceCreated)
    ensures
        number_at(SurfaceCreated::wire(created), 0, 8) == created.id.0,
        SurfaceCreated::wire(created).subrange(8, 16) == Size::wire(created.size),
        SurfaceCreated::wire(created).subrange(16, 32) == Rect::wire(created.content),
        SurfaceCreated::wire(created)[32] == (if created.parent is Some {
            1u8
        } else {
            0u8
        }),
        created.parent matches Some(anchor) ==> SurfaceCreated::wire(created).subrange(33, 49)
            == Anchor::wire(anchor),
        SurfaceCreated::wire(created).last() == (if created.decorated {
            1u8
        } else {
            0u8
        }),
{
    numbers_read_back();
    the_way_across_comes_first(created.size, Point { x: 0, y: 0 });
    let bytes = SurfaceCreated::wire(created);
    let id = u64::wire(created.id.0);
    let size = Size::wire(created.size);
    let content = Rect::wire(created.content);
    let parent = <Option<Anchor>>::wire(created.parent);
    let flag = bool::wire(created.decorated);
    match created.parent {
        Some(anchor) => a_corner_comes_before_a_size(created.content, anchor),
        None => a_corner_comes_before_a_size(
            created.content,
            Anchor { parent: created.id, x: 0, y: 0 },
        ),
    }
    assert(bytes =~= id + (size + (content + (parent + flag))));
    assert(bytes.subrange(0, 8) =~= id);
    assert(bytes.subrange(8, 16) =~= size);
    assert(bytes.subrange(16, 32) =~= content);
    assert(bytes[32] == parent[0]);
    if let Some(anchor) = created.parent {
        assert(bytes.subrange(33, 49) =~= Anchor::wire(anchor));
    }
    assert(bytes.last() == flag[0]);
}

/// A frame travels with its surface in front, then how it is packed, then the
/// regions it covers, and the packed bytes at the end.
pub proof fn a_frame_is_laid_out(frame: SurfaceFrameView)
    ensures
        number_at(SurfaceFrame::wire(frame), 0, 8) == frame.id.0,
        SurfaceFrame::wire(frame).subrange(8, 12) == Codec::wire(frame.codec),
        SurfaceFrame::wire(frame).skip(12) == <Vec<Rect>>::wire(frame.damage) + Bytes::wire(
            frame.payload,
        ),
{
    numbers_read_back();
    let bytes = SurfaceFrame::wire(frame);
    let rest = <Vec<Rect>>::wire(frame.damage) + Bytes::wire(frame.payload);
    assert(bytes =~= u64::wire(frame.id.0) + (Codec::wire(frame.codec) + rest));
    assert(bytes.subrange(0, 8) =~= u64::wire(frame.id.0));
    assert(bytes.subrange(8, 12) =~= Codec::wire(frame.codec));
    assert(bytes.skip(12) =~= rest);
}

/// The surface that a message from the compositor is about, where it is about one.
pub open spec fn about(message: ServerMessageView) -> Option<SurfaceId> {
    match message {
        ServerMessageView::SurfaceCreated(created) => Some(created.id),
        ServerMessageView::SurfaceFrame(frame) => Some(frame.id),
        ServerMessageView::SurfaceTitle { id, .. } => Some(id),
        ServerMessageView::SurfaceAppId { id, .. } => Some(id),
        ServerMessageView::SurfaceRequest { id, .. } => Some(id),
        ServerMessageView::PointerConstraint { id, .. } => Some(id),
        ServerMessageView::SurfaceDestroyed { id } => Some(id),
        _ => None,
    }
}

/// The place of a message's kind among those the compositor sends.
pub open spec fn kind_of(message: ServerMessageView) -> nat {
    match message {
        ServerMessageView::SurfaceCreated(_) => 0,
        ServerMessageView::SurfaceFrame(_) => 1,
        ServerMessageView::Applications(_) => 2,
        ServerMessageView::SurfaceTitle { .. } => 3,
        ServerMessageView::SurfaceAppId { .. } => 4,
        ServerMessageView::SurfaceRequest { .. } => 5,
        ServerMessageView::Tray { .. } => 6,
        ServerMessageView::TrayMenu { .. } => 7,
        ServerMessageView::Audio { .. } => 8,
        ServerMessageView::Clipboard { .. } => 9,
        ServerMessageView::PointerConstraint { .. } => 10,
        ServerMessageView::Cursor { .. } => 11,
        ServerMessageView::SurfaceDestroyed { .. } => 12,
    }
}

/// A message from the compositor is led by its kind, and where it is about a
/// surface the surface's id comes next.
pub proof fn a_message_says_what_it_is_about(message: ServerMessageView)
    ensures
        number_at(ServerMessage::wire(message), 0, 4) == kind_of(message),
        about(message) matches Some(id) ==> number_at(ServerMessage::wire(message), 4, 8) == id.0,
{
    numbers_read_back();
    let bytes = ServerMessage::wire(message);
    assert(bytes.subrange(0, 4) =~= u32::wire(kind_of(message) as u32));
    if let Some(id) = about(message) {
        assert(bytes.subrange(4, 12) =~= u64::wire(id.0));
    }
}

/// The place of a message's kind among those a browser sends.
pub open spec fn client_kind(message: ClientMessageView) -> nat {
    match message {
        ClientMessageView::Input(_) => 0,
        ClientMessageView::FramePresented { .. } => 1,
        ClientMessageView::Focus { .. } => 2,
        ClientMessageView::Clipboard { .. } => 3,
        ClientMessageView::Launch { .. } => 4,
        ClientMessageView::TrayActivate { .. } => 5,
        ClientMessageView::TrayMenuOpen { .. } => 6,
        ClientMessageView::TrayMenuClick { .. } => 7,
        ClientMessageView::CloseSurface { .. } => 8,
        ClientMessageView::SetMaximized { .. } => 9,
        ClientMessageView::SetSize { .. } => 10,
        ClientMessageView::Resize { .. } => 11,
        ClientMessageView::RequestKeyframe => 12,
    }
}

/// A message from a browser is led by its kind. What it is about comes next, and a
/// size behind that.
pub proof fn a_request_says_what_it_is_about(message: ClientMessageView)
    ensures
        number_at(ClientMessage::wire(message), 0, 4) == client_kind(message),
        message matches ClientMessageView::FramePresented { id } ==> number_at(
            ClientMessage::wire(message),
            4,
            8,
        ) == id.0,
        message matches ClientMessageView::Focus { id } ==> number_at(
            ClientMessage::wire(message),
            4,
            8,
        ) == id.0,
        message matches ClientMessageView::CloseSurface { id } ==> number_at(
            ClientMessage::wire(message),
            4,
            8,
        ) == id.0,
        message matches ClientMessageView::SetSize { id, size } ==> number_at(
            ClientMessage::wire(message),
            4,
            8,
        ) == id.0 && ClientMessage::wire(message).skip(12) == Size::wire(size),
        message matches ClientMessageView::SetMaximized { id, size } ==> number_at(
            ClientMessage::wire(message),
            4,
            8,
        ) == id.0 && ClientMessage::wire(message)[12] == (if size is Some {
            1u8
        } else {
            0u8
        }) && (size matches Some(asked) ==> ClientMessage::wire(message).skip(13) == Size::wire(
            asked,
        )),
        message matches ClientMessageView::Resize { size } ==> ClientMessage::wire(message).skip(4)
            == Size::wire(size),
        message matches ClientMessageView::Launch { id } ==> number_at(
            ClientMessage::wire(message),
            4,
            4,
        ) == id,
{
    numbers_read_back();
    let bytes = ClientMessage::wire(message);
    assert(bytes.subrange(0, 4) =~= u32::wire(client_kind(message) as u32));
    match message {
        ClientMessageView::FramePresented { id } => {
            assert(bytes.subrange(4, 12) =~= u64::wire(id.0));
        },
        ClientMessageView::Focus { id } => {
            assert(bytes.subrange(4, 12) =~= u64::wire(id.0));
        },
        ClientMessageView::CloseSurface { id } => {
            assert(bytes.subrange(4, 12) =~= u64::wire(id.0));
        },
        ClientMessageView::SetSize { id, size } => {
            assert(bytes.subrange(4, 12) =~= u64::wire(id.0));
            assert(bytes.skip(12) =~= Size::wire(size));
        },
        ClientMessageView::SetMaximized { id, size } => {
            assert(bytes.subrange(4, 12) =~= u64::wire(id.0));
            assert(bytes[12] == <Option<Size>>::wire(size)[0]);
            if let Some(asked) = size {
                assert(bytes.skip(13) =~= Size::wire(asked));
            }
        },
        ClientMessageView::Resize { size } => {
            assert(bytes.skip(4) =~= Size::wire(size));
        },
        ClientMessageView::Launch { id } => {
            assert(bytes.subrange(4, 8) =~= u32::wire(id));
        },
        _ => {},
    }
}

/// An input event is led by its kind, and then says what moved and how far, or
/// what was pressed and whether it went down.
pub proof fn an_input_says_what_happened(event: InputEvent)
    ensures
        number_at(InputEvent::wire(event), 0, 4) == (match event {
            InputEvent::PointerMotion { .. } => 0nat,
            InputEvent::PointerMotionRelative { .. } => 1nat,
            InputEvent::PointerButton { .. } => 2nat,
            InputEvent::PointerScroll { .. } => 3nat,
            InputEvent::Key { .. } => 4nat,
        }),
        event matches InputEvent::PointerMotion { id, position } ==> number_at(
            InputEvent::wire(event),
            4,
            8,
        ) == id.0 && InputEvent::wire(event).skip(12) == Point::wire(position),
        event matches InputEvent::PointerMotionRelative { dx, dy } ==> number_at(
            InputEvent::wire(event),
            4,
            8,
        ) == dx && number_at(InputEvent::wire(event), 12, 8) == dy,
        event matches InputEvent::PointerScroll { id, dx, dy } ==> number_at(
            InputEvent::wire(event),
            4,
            8,
        ) == id.0 && number_at(InputEvent::wire(event), 12, 8) == dx && number_at(
            InputEvent::wire(event),
            20,
            8,
        ) == dy,
        event matches InputEvent::PointerButton { button, state } ==> number_at(
            InputEvent::wire(event),
            4,
            4,
        ) == button && InputEvent::wire(event).skip(8) == Press::wire(state),
        event matches InputEvent::Key { keycode, state } ==> number_at(
            InputEvent::wire(event),
            4,
            4,
        ) == keycode && InputEvent::wire(event).skip(8) == Press::wire(state),
{
    numbers_read_back();
    let bytes = InputEvent::wire(event);
    match event {
        InputEvent::PointerMotion { id, position } => {
            assert(bytes.subrange(0, 4) =~= u32::wire(0));
            assert(bytes.subrange(4, 12) =~= u64::wire(id.0));
            assert(bytes.skip(12) =~= Point::wire(position));
        },
        InputEvent::PointerMotionRelative { dx, dy } => {
            assert(bytes.subrange(0, 4) =~= u32::wire(1));
            assert(bytes.subrange(4, 12) =~= u64::wire(dx));
            assert(bytes.subrange(12, 20) =~= u64::wire(dy));
        },
        InputEvent::PointerButton { button, state } => {
            assert(bytes.subrange(0, 4) =~= u32::wire(2));
            assert(bytes.subrange(4, 8) =~= u32::wire(button));
            assert(bytes.skip(8) =~= Press::wire(state));
        },
        InputEvent::PointerScroll { id, dx, dy } => {
            assert(bytes.subrange(0, 4) =~= u32::wire(3));
            assert(bytes.subrange(4, 12) =~= u64::wire(id.0));
            assert(bytes.subrange(12, 20) =~= u64::wire(dx));
            assert(bytes.subrange(20, 28) =~= u64::wire(dy));
        },
        InputEvent::Key { keycode, state } => {
            assert(bytes.subrange(0, 4) =~= u32::wire(4));
            assert(bytes.subrange(4, 8) =~= u32::wire(keycode));
            assert(bytes.skip(8) =~= Press::wire(state));
        },
    }
}

} // verus!
