//! Where each message's fields stand in a frame, and the codec's two ends.

use crate::geometry::{Point, Rect, Size, SurfaceId};
use crate::protocol::messages::{
    menu_view, Anchor, Application, ApplicationView, ClientMessage, ClientMessageView, Codec,
    InputEvent, Press, ServerMessage, ServerMessageView, SurfaceCreated, SurfaceFrame,
    SurfaceFrameView, TrayItem, TrayItemView, TrayMenuItem, TrayMenuItemView, WindowRequest,
};
use crate::protocol::wire::{
    after, is_worded, number, numbers_are_bounded, numbers_in, numbers_read_back, put_bytes, Bytes,
    Wire, WireError,
};
use crate::text::{decimal, format_decimal};
use vstd::prelude::*;

verus! {

/// Encode a message into a single wire frame.
pub fn encode<M: Wire>(message: &M) -> (result: Result<Vec<u8>, WireError>)
    ensures
        result is Ok,
        M::fits(message.deep_view()),
        result->Ok_0@ == M::wire(message.deep_view()),
{
    let mut frame: Vec<u8> = Vec::new();
    message.put(&mut frame)?;
    assert(frame@ =~= M::wire(message.deep_view()));
    Ok(frame)
}

/// Decode a single wire frame into a message.
///
/// A frame that holds no whole `M` at its front is refused; what follows the
/// message is not looked at.
pub fn decode<M: Wire>(bytes: &[u8]) -> (result: Result<M, WireError>)
    ensures
        match M::parse(bytes@) {
            Some((value, _)) => result matches Ok(message) && message.deep_view() == value,
            None => result matches Err(WireError::Decode(text)) && is_worded(
                text@,
                M::refusal(bytes@),
            ),
        },
{
    let (message, _): (M, usize) = M::get(bytes)?;
    Ok(message)
}

/// What one end encodes the other end decodes: the frame of a message parses as
/// that message, all of it, and so does the frame with anything behind it.
pub proof fn decoding_undoes_encoding<M: Wire>(value: M::V, trailing: Seq<u8>)
    requires
        M::fits(value),
    ensures
        M::parse(M::wire(value)) == Some((value, M::wire(value).len())),
        M::parse(M::wire(value) + trailing) == Some((value, M::wire(value).len())),
{
    M::round_trip(value, Seq::empty());
    assert(M::wire(value) + Seq::<u8>::empty() =~= M::wire(value));
    M::round_trip(value, trailing);
}

/// A frame that begins with no message's index is refused, in words that name the
/// index, and so is one too short to hold an index.
pub proof fn unknown_messages_are_refused(bytes: Seq<u8>)
    requires
        bytes.len() < 4 || number(bytes.take(4)) > 12,
    ensures
        ClientMessage::parse(bytes) is None,
        ServerMessage::parse(bytes) is None,
        bytes.len() >= 4 ==> {
            let words = Some(no_such_variant(number(bytes.take(4)) as u32, 13));
            ClientMessage::refusal(bytes) == words && ServerMessage::refusal(bytes) == words
        },
{
    if bytes.len() >= 4 {
        assert(bytes.take(4) =~= bytes.subrange(0, 4));
        reveal_with_fuel(numbers_in, 5);
        numbers_are_bounded(bytes.take(4));
    }
}

/// Two different messages never share a frame, nor is one's frame the beginning
/// of the other's.
pub proof fn frames_are_unambiguous<M: Wire>(one: M::V, other: M::V)
    requires
        M::fits(one),
        M::fits(other),
        M::wire(one).is_prefix_of(M::wire(other)),
    ensures
        one == other,
{
    let trailing = M::wire(other).skip(M::wire(one).len() as int);
    assert(M::wire(one) + trailing =~= M::wire(other));
    decoding_undoes_encoding::<M>(one, trailing);
    decoding_undoes_encoding::<M>(other, Seq::empty());
}

impl Wire for SurfaceId {
    open spec fn fits(value: SurfaceId) -> bool {
        <u64>::fits(value.0)
    }

    open spec fn wire(value: SurfaceId) -> Seq<u8> {
        <u64>::wire(value.0)
    }

    open spec fn parse(bytes: Seq<u8>) -> Option<(SurfaceId, nat)> {
        match <u64>::parse(bytes) {
            Some((inner, n)) => Some((SurfaceId(inner), n)),
            None => None,
        }
    }

    open spec fn refusal(bytes: Seq<u8>) -> Option<Seq<char>> {
        <u64>::refusal(bytes)
    }

    proof fn round_trip(value: SurfaceId, rest: Seq<u8>) {
        <u64>::round_trip(value.0, rest);
    }

    proof fn parse_bounded(bytes: Seq<u8>) {
        <u64>::parse_bounded(bytes);
    }

    proof fn values_are_not_refused(bytes: Seq<u8>) {
        <u64>::values_are_not_refused(bytes);
    }

    fn put(&self, out: &mut Vec<u8>) -> (result: Result<(), WireError>) {
        self.0.put(out)?;
        assert(out@ =~= old(out)@ + Self::wire(self.deep_view()));
        Ok(())
    }

    fn get(bytes: &[u8]) -> (result: Result<(SurfaceId, usize), WireError>) {
        let (inner, n): (u64, usize) = <u64>::get(bytes)?;
        Ok((SurfaceId(inner), n))
    }
}

impl Wire for Size {
    open spec fn fits(value: Size) -> bool {
        <(u32, u32)>::fits((value.width, value.height))
    }

    open spec fn wire(value: Size) -> Seq<u8> {
        <(u32, u32)>::wire((value.width, value.height))
    }

    open spec fn parse(bytes: Seq<u8>) -> Option<(Size, nat)> {
        match <(u32, u32)>::parse(bytes) {
            Some(((width, height), n)) => Some((Size { width, height }, n)),
            None => None,
        }
    }

    open spec fn refusal(bytes: Seq<u8>) -> Option<Seq<char>> {
        <(u32, u32)>::refusal(bytes)
    }

    proof fn round_trip(value: Size, rest: Seq<u8>) {
        <(u32, u32)>::round_trip((value.width, value.height), rest);
    }

    proof fn parse_bounded(bytes: Seq<u8>) {
        <(u32, u32)>::parse_bounded(bytes);
    }

    proof fn values_are_not_refused(bytes: Seq<u8>) {
        <(u32, u32)>::values_are_not_refused(bytes);
    }

    fn put(&self, out: &mut Vec<u8>) -> (result: Result<(), WireError>) {
        self.width.put(out)?;
        self.height.put(out)?;
        assert(out@ =~= old(out)@ + Self::wire(self.deep_view()));
        Ok(())
    }

    fn get(bytes: &[u8]) -> (result: Result<(Size, usize), WireError>) {
        let ((width, height), n): ((u32, u32), usize) = <(u32, u32)>::get(bytes)?;
        Ok((Size { width, height }, n))
    }
}

impl Wire for Point {
    open spec fn fits(value: Point) -> bool {
        <(u64, u64)>::fits((value.x, value.y))
    }

    open spec fn wire(value: Point) -> Seq<u8> {
        <(u64, u64)>::wire((value.x, value.y))
    }

    open spec fn parse(bytes: Seq<u8>) -> Option<(Point, nat)> {
        match <(u64, u64)>::parse(bytes) {
            Some(((x, y), n)) => Some((Point { x, y }, n)),
            None => None,
        }
    }

    open spec fn refusal(bytes: Seq<u8>) -> Option<Seq<char>> {
        <(u64, u64)>::refusal(bytes)
    }

    proof fn round_trip(value: Point, rest: Seq<u8>) {
        <(u64, u64)>::round_trip((value.x, value.y), rest);
    }

    proof fn parse_bounded(bytes: Seq<u8>) {
        <(u64, u64)>::parse_bounded(bytes);
    }

    proof fn values_are_not_refused(bytes: Seq<u8>) {
        <(u64, u64)>::values_are_not_refused(bytes);
    }

    fn put(&self, out: &mut Vec<u8>) -> (result: Result<(), WireError>) {
        self.x.put(out)?;
        self.y.put(out)?;
        assert(out@ =~= old(out)@ + Self::wire(self.deep_view()));
        Ok(())
    }

    fn get(bytes: &[u8]) -> (result: Result<(Point, usize), WireError>) {
        let ((x, y), n): ((u64, u64), usize) = <(u64, u64)>::get(bytes)?;
        Ok((Point { x, y }, n))
    }
}

impl Wire for Rect {
    open spec fn fits(value: Rect) -> bool {
        <(i32, (i32, (u32, u32)))>::fits((value.x, (value.y, (value.width, value.height))))
    }

    open spec fn wire(value: Rect) -> Seq<u8> {
        <(i32, (i32, (u32, u32)))>::wire((value.x, (value.y, (value.width, value.height))))
    }

    open spec fn parse(bytes: Seq<u8>) -> Option<(Rect, nat)> {
        match <(i32, (i32, (u32, u32)))>::parse(bytes) {
            Some(((x, (y, (width, height))), n)) => Some((Rect { x, y, width, height }, n)),
            None => None,
        }
    }

    open spec fn refusal(bytes: Seq<u8>) -> Option<Seq<char>> {
        <(i32, (i32, (u32, u32)))>::refusal(bytes)
    }

    proof fn round_trip(value: Rect, rest: Seq<u8>) {
        <(i32, (i32, (u32, u32)))>::round_trip(
            (value.x, (value.y, (value.width, value.height))),
            rest,
        );
    }

    proof fn parse_bounded(bytes: Seq<u8>) {
        <(i32, (i32, (u32, u32)))>::parse_bounded(bytes);
    }

    proof fn values_are_not_refused(bytes: Seq<u8>) {
        <(i32, (i32, (u32, u32)))>::values_are_not_refused(bytes);
    }

    fn put(&self, out: &mut Vec<u8>) -> (result: Result<(), WireError>) {
        self.x.put(out)?;
        self.y.put(out)?;
        self.width.put(out)?;
        self.height.put(out)?;
        assert(out@ =~= old(out)@ + Self::wire(self.deep_view()));
        Ok(())
    }

    fn get(bytes: &[u8]) -> (result: Result<(Rect, usize), WireError>) {
        let ((x, (y, (width, height))), n): ((i32, (i32, (u32, u32))), usize) =
            <(i32, (i32, (u32, u32)))>::get(bytes)?;
        Ok((Rect { x, y, width, height }, n))
    }
}

impl Wire for Anchor {
    open spec fn fits(value: Anchor) -> bool {
        <(SurfaceId, (i32, i32))>::fits((value.parent, (value.x, value.y)))
    }

    open spec fn wire(value: Anchor) -> Seq<u8> {
        <(SurfaceId, (i32, i32))>::wire((value.parent, (value.x, value.y)))
    }

    open spec fn parse(bytes: Seq<u8>) -> Option<(Anchor, nat)> {
        match <(SurfaceId, (i32, i32))>::parse(bytes) {
            Some(((parent, (x, y)), n)) => Some((Anchor { parent, x, y }, n)),
            None => None,
        }
    }

    open spec fn refusal(bytes: Seq<u8>) -> Option<Seq<char>> {
        <(SurfaceId, (i32, i32))>::refusal(bytes)
    }

    proof fn round_trip(value: Anchor, rest: Seq<u8>) {
        <(SurfaceId, (i32, i32))>::round_trip((value.parent, (value.x, value.y)), rest);
    }

    proof fn parse_bounded(bytes: Seq<u8>) {
        <(SurfaceId, (i32, i32))>::parse_bounded(bytes);
    }

    proof fn values_are_not_refused(bytes: Seq<u8>) {
        <(SurfaceId, (i32, i32))>::values_are_not_refused(bytes);
    }

    fn put(&self, out: &mut Vec<u8>) -> (result: Result<(), WireError>) {
        self.parent.put(out)?;
        self.x.put(out)?;
        self.y.put(out)?;
        assert(out@ =~= old(out)@ + Self::wire(self.deep_view()));
        Ok(())
    }

    fn get(bytes: &[u8]) -> (result: Result<(Anchor, usize), WireError>) {
        let ((parent, (x, y)), n): ((SurfaceId, (i32, i32)), usize) =
            <(SurfaceId, (i32, i32))>::get(bytes)?;
        Ok((Anchor { parent, x, y }, n))
    }
}

/// The fields of a [`SurfaceCreated`], in the order they travel.
type SurfaceCreatedFields = (SurfaceId, (Size, (Rect, (Option<Anchor>, bool))));

impl Wire for SurfaceCreated {
    open spec fn fits(value: SurfaceCreated) -> bool {
        SurfaceCreatedFields::fits(
            (value.id, (value.size, (value.content, (value.parent, value.decorated)))),
        )
    }

    open spec fn wire(value: SurfaceCreated) -> Seq<u8> {
        SurfaceCreatedFields::wire(
            (value.id, (value.size, (value.content, (value.parent, value.decorated)))),
        )
    }

    open spec fn parse(bytes: Seq<u8>) -> Option<(SurfaceCreated, nat)> {
        match SurfaceCreatedFields::parse(bytes) {
            Some(((id, (size, (content, (parent, decorated)))), n)) => Some(
                (SurfaceCreated { id, size, content, parent, decorated }, n),
            ),
            None => None,
        }
    }

    open spec fn refusal(bytes: Seq<u8>) -> Option<Seq<char>> {
        SurfaceCreatedFields::refusal(bytes)
    }

    proof fn round_trip(value: SurfaceCreated, rest: Seq<u8>) {
        SurfaceCreatedFields::round_trip(
            (value.id, (value.size, (value.content, (value.parent, value.decorated)))),
            rest,
        );
    }

    proof fn parse_bounded(bytes: Seq<u8>) {
        SurfaceCreatedFields::parse_bounded(bytes);
    }

    proof fn values_are_not_refused(bytes: Seq<u8>) {
        SurfaceCreatedFields::values_are_not_refused(bytes);
    }

    fn put(&self, out: &mut Vec<u8>) -> (result: Result<(), WireError>) {
        self.id.put(out)?;
        self.size.put(out)?;
        self.content.put(out)?;
        self.parent.put(out)?;
        self.decorated.put(out)?;
        assert(out@ =~= old(out)@ + Self::wire(self.deep_view()));
        Ok(())
    }

    fn get(bytes: &[u8]) -> (result: Result<(SurfaceCreated, usize), WireError>) {
        let ((id, (size, (content, (parent, decorated)))), n): (SurfaceCreatedFields, usize) =
            SurfaceCreatedFields::get(bytes)?;
        Ok((SurfaceCreated { id, size, content, parent, decorated }, n))
    }
}

/// The fields of a [`Application`], in the order they travel.
type ApplicationFields = (u32, (String, (String, Option<String>)));

impl Wire for Application {
    open spec fn fits(value: ApplicationView) -> bool {
        ApplicationFields::fits((value.id, (value.name, (value.app_id, value.icon))))
    }

    open spec fn wire(value: ApplicationView) -> Seq<u8> {
        ApplicationFields::wire((value.id, (value.name, (value.app_id, value.icon))))
    }

    open spec fn parse(bytes: Seq<u8>) -> Option<(ApplicationView, nat)> {
        match ApplicationFields::parse(bytes) {
            Some(((id, (name, (app_id, icon))), n)) => Some(
                (ApplicationView { id, name, app_id, icon }, n),
            ),
            None => None,
        }
    }

    open spec fn refusal(bytes: Seq<u8>) -> Option<Seq<char>> {
        ApplicationFields::refusal(bytes)
    }

    proof fn round_trip(value: ApplicationView, rest: Seq<u8>) {
        ApplicationFields::round_trip((value.id, (value.name, (value.app_id, value.icon))), rest);
    }

    proof fn parse_bounded(bytes: Seq<u8>) {
        ApplicationFields::parse_bounded(bytes);
    }

    proof fn values_are_not_refused(bytes: Seq<u8>) {
        ApplicationFields::values_are_not_refused(bytes);
    }

    fn put(&self, out: &mut Vec<u8>) -> (result: Result<(), WireError>) {
        self.id.put(out)?;
        self.name.put(out)?;
        self.app_id.put(out)?;
        self.icon.put(out)?;
        assert(out@ =~= old(out)@ + Self::wire(self.deep_view()));
        Ok(())
    }

    fn get(bytes: &[u8]) -> (result: Result<(Application, usize), WireError>) {
        let ((id, (name, (app_id, icon))), n): (ApplicationFields, usize) =
            ApplicationFields::get(bytes)?;
        Ok((Application { id, name, app_id, icon }, n))
    }
}

/// The fields of a [`TrayItem`], in the order they travel.
type TrayItemFields = (String, (String, Option<String>));

impl Wire for TrayItem {
    open spec fn fits(value: TrayItemView) -> bool {
        TrayItemFields::fits((value.id, (value.title, value.icon)))
    }

    open spec fn wire(value: TrayItemView) -> Seq<u8> {
        TrayItemFields::wire((value.id, (value.title, value.icon)))
    }

    open spec fn parse(bytes: Seq<u8>) -> Option<(TrayItemView, nat)> {
        match TrayItemFields::parse(bytes) {
            Some(((id, (title, icon)), n)) => Some((TrayItemView { id, title, icon }, n)),
            None => None,
        }
    }

    open spec fn refusal(bytes: Seq<u8>) -> Option<Seq<char>> {
        TrayItemFields::refusal(bytes)
    }

    proof fn round_trip(value: TrayItemView, rest: Seq<u8>) {
        TrayItemFields::round_trip((value.id, (value.title, value.icon)), rest);
    }

    proof fn parse_bounded(bytes: Seq<u8>) {
        TrayItemFields::parse_bounded(bytes);
    }

    proof fn values_are_not_refused(bytes: Seq<u8>) {
        TrayItemFields::values_are_not_refused(bytes);
    }

    fn put(&self, out: &mut Vec<u8>) -> (result: Result<(), WireError>) {
        self.id.put(out)?;
        self.title.put(out)?;
        self.icon.put(out)?;
        assert(out@ =~= old(out)@ + Self::wire(self.deep_view()));
        Ok(())
    }

    fn get(bytes: &[u8]) -> (result: Result<(TrayItem, usize), WireError>) {
        let ((id, (title, icon)), n): (TrayItemFields, usize) = TrayItemFields::get(bytes)?;
        Ok((TrayItem { id, title, icon }, n))
    }
}

/// The error for an index that none of an enum's variants has: it names the index
/// and how many variants there are.
fn unknown_variant(index: u32, variants: u32) -> (error: WireError)
    ensures
        error matches WireError::Decode(text) && text@ == no_such_variant(index, variants),
{
    let mut text = "invalid value: integer `".to_owned();
    text.append(format_decimal(index as u64).as_str());
    text.append("`, expected variant index 0 <= i < ");
    text.append(format_decimal(variants as u64).as_str());
    WireError::Decode(text)
}

/// What is said of an index that none of an enum's variants has.
pub open spec fn no_such_variant(index: u32, variants: u32) -> Seq<char> {
    "invalid value: integer `"@ + decimal(index as nat) + "`, expected variant index 0 <= i < "@
        + decimal(variants as nat)
}

impl Wire for Codec {
    open spec fn fits(value: Codec) -> bool {
        true
    }

    open spec fn wire(value: Codec) -> Seq<u8> {
        match value {
            Codec::Raw => u32::wire(0),
            Codec::Deflate => u32::wire(1),
            Codec::H264 => u32::wire(2),
        }
    }

    open spec fn parse(bytes: Seq<u8>) -> Option<(Codec, nat)> {
        match u32::parse(bytes) {
            Some((0u32, n)) => Some((Codec::Raw, n)),
            Some((1u32, n)) => Some((Codec::Deflate, n)),
            Some((2u32, n)) => Some((Codec::H264, n)),
            _ => None,
        }
    }

    open spec fn refusal(bytes: Seq<u8>) -> Option<Seq<char>> {
        match u32::parse(bytes) {
            Some((tag, _)) => if tag < 3 {
                None
            } else {
                Some(no_such_variant(tag, 3))
            },
            None => None,
        }
    }

    proof fn round_trip(value: Codec, rest: Seq<u8>) {
        match value {
            Codec::Raw => u32::round_trip(0, rest),
            Codec::Deflate => u32::round_trip(1, rest),
            Codec::H264 => u32::round_trip(2, rest),
        }
    }

    proof fn parse_bounded(bytes: Seq<u8>) {
    }

    proof fn values_are_not_refused(bytes: Seq<u8>) {
    }

    fn put(&self, out: &mut Vec<u8>) -> (result: Result<(), WireError>) {
        let tag: u32 = match self {
            Codec::Raw => 0,
            Codec::Deflate => 1,
            Codec::H264 => 2,
        };
        tag.put(out)
    }

    fn get(bytes: &[u8]) -> (result: Result<(Codec, usize), WireError>) {
        let (tag, n): (u32, usize) = u32::get(bytes)?;
        match tag {
            0 => Ok((Codec::Raw, n)),
            1 => Ok((Codec::Deflate, n)),
            2 => Ok((Codec::H264, n)),
            _ => Err(unknown_variant(tag, 3)),
        }
    }
}

impl Wire for WindowRequest {
    open spec fn fits(value: WindowRequest) -> bool {
        true
    }

    open spec fn wire(value: WindowRequest) -> Seq<u8> {
        match value {
            WindowRequest::Move => u32::wire(0),
            WindowRequest::Maximize => u32::wire(1),
            WindowRequest::Unmaximize => u32::wire(2),
            WindowRequest::Minimize => u32::wire(3),
        }
    }

    open spec fn parse(bytes: Seq<u8>) -> Option<(WindowRequest, nat)> {
        match u32::parse(bytes) {
            Some((0u32, n)) => Some((WindowRequest::Move, n)),
            Some((1u32, n)) => Some((WindowRequest::Maximize, n)),
            Some((2u32, n)) => Some((WindowRequest::Unmaximize, n)),
            Some((3u32, n)) => Some((WindowRequest::Minimize, n)),
            _ => None,
        }
    }

    open spec fn refusal(bytes: Seq<u8>) -> Option<Seq<char>> {
        match u32::parse(bytes) {
            Some((tag, _)) => if tag < 4 {
                None
            } else {
                Some(no_such_variant(tag, 4))
            },
            None => None,
        }
    }

    proof fn round_trip(value: WindowRequest, rest: Seq<u8>) {
        match value {
            WindowRequest::Move => u32::round_trip(0, rest),
            WindowRequest::Maximize => u32::round_trip(1, rest),
            WindowRequest::Unmaximize => u32::round_trip(2, rest),
            WindowRequest::Minimize => u32::round_trip(3, rest),
        }
    }

    proof fn parse_bounded(bytes: Seq<u8>) {
    }

    proof fn values_are_not_refused(bytes: Seq<u8>) {
    }

    fn put(&self, out: &mut Vec<u8>) -> (result: Result<(), WireError>) {
        let tag: u32 = match self {
            WindowRequest::Move => 0,
            WindowRequest::Maximize => 1,
            WindowRequest::Unmaximize => 2,
            WindowRequest::Minimize => 3,
        };
        tag.put(out)
    }

    fn get(bytes: &[u8]) -> (result: Result<(WindowRequest, usize), WireError>) {
        let (tag, n): (u32, usize) = u32::get(bytes)?;
        match tag {
            0 => Ok((WindowRequest::Move, n)),
            1 => Ok((WindowRequest::Maximize, n)),
            2 => Ok((WindowRequest::Unmaximize, n)),
            3 => Ok((WindowRequest::Minimize, n)),
            _ => Err(unknown_variant(tag, 4)),
        }
    }
}

impl Wire for Press {
    open spec fn fits(value: Press) -> bool {
        true
    }

    open spec fn wire(value: Press) -> Seq<u8> {
        match value {
            Press::Down => u32::wire(0),
            Press::Up => u32::wire(1),
        }
    }

    open spec fn parse(bytes: Seq<u8>) -> Option<(Press, nat)> {
        match u32::parse(bytes) {
            Some((0u32, n)) => Some((Press::Down, n)),
            Some((1u32, n)) => Some((Press::Up, n)),
            _ => None,
        }
    }

    open spec fn refusal(bytes: Seq<u8>) -> Option<Seq<char>> {
        match u32::parse(bytes) {
            Some((tag, _)) => if tag < 2 {
                None
            } else {
                Some(no_such_variant(tag, 2))
            },
            None => None,
        }
    }

    proof fn round_trip(value: Press, rest: Seq<u8>) {
        match value {
            Press::Down => u32::round_trip(0, rest),
            Press::Up => u32::round_trip(1, rest),
        }
    }

    proof fn parse_bounded(bytes: Seq<u8>) {
    }

    proof fn values_are_not_refused(bytes: Seq<u8>) {
    }

    fn put(&self, out: &mut Vec<u8>) -> (result: Result<(), WireError>) {
        let tag: u32 = match self {
            Press::Down => 0,
            Press::Up => 1,
        };
        tag.put(out)
    }

    fn get(bytes: &[u8]) -> (result: Result<(Press, usize), WireError>) {
        let (tag, n): (u32, usize) = u32::get(bytes)?;
        match tag {
            0 => Ok((Press::Down, n)),
            1 => Ok((Press::Up, n)),
            _ => Err(unknown_variant(tag, 2)),
        }
    }
}

/// The fields of a [`SurfaceFrame`], in the order they travel.
type SurfaceFrameFields = (SurfaceId, (Codec, (Vec<Rect>, Bytes)));

impl Wire for SurfaceFrame {
    open spec fn fits(value: SurfaceFrameView) -> bool {
        SurfaceFrameFields::fits((value.id, (value.codec, (value.damage, value.payload))))
    }

    open spec fn wire(value: SurfaceFrameView) -> Seq<u8> {
        SurfaceFrameFields::wire((value.id, (value.codec, (value.damage, value.payload))))
    }

    open spec fn parse(bytes: Seq<u8>) -> Option<(SurfaceFrameView, nat)> {
        match SurfaceFrameFields::parse(bytes) {
            Some(((id, (codec, (damage, payload))), n)) => Some(
                (SurfaceFrameView { id, codec, damage, payload }, n),
            ),
            None => None,
        }
    }

    open spec fn refusal(bytes: Seq<u8>) -> Option<Seq<char>> {
        SurfaceFrameFields::refusal(bytes)
    }

    proof fn round_trip(value: SurfaceFrameView, rest: Seq<u8>) {
        SurfaceFrameFields::round_trip(
            (value.id, (value.codec, (value.damage, value.payload))),
            rest,
        );
    }

    proof fn parse_bounded(bytes: Seq<u8>) {
        SurfaceFrameFields::parse_bounded(bytes);
    }

    proof fn values_are_not_refused(bytes: Seq<u8>) {
        SurfaceFrameFields::values_are_not_refused(bytes);
    }

    fn put(&self, out: &mut Vec<u8>) -> (result: Result<(), WireError>) {
        self.id.put(out)?;
        self.codec.put(out)?;
        self.damage.put(out)?;
        put_bytes(&self.payload, out)?;
        assert(self.damage.deep_view() =~= self.damage@);
        assert(out@ =~= old(out)@ + Self::wire(self.deep_view()));
        Ok(())
    }

    fn get(bytes: &[u8]) -> (result: Result<(SurfaceFrame, usize), WireError>) {
        let ((id, (codec, (damage, payload))), n): (SurfaceFrameFields, usize) =
            SurfaceFrameFields::get(bytes)?;
        assert(damage.deep_view() =~= damage@);
        Ok((SurfaceFrame { id, codec, damage, payload: payload.0 }, n))
    }
}

/// What a menu row says of itself, and how many children follow.
type MenuHead = ((i32, (String, (bool, (Option<bool>, bool)))), u64);

/// The fields of a menu row that come before its children.
pub open spec fn menu_head(item: TrayMenuItemView) -> (i32, (Seq<char>, (bool, (Option<bool>, bool)))) {
    (item.id, (item.label, (item.enabled, (item.checked, item.separator))))
}

/// Every length in a menu row and below it fits.
pub open spec fn menu_fits(item: TrayMenuItemView) -> bool
    decreases item,
{
    &&& <(i32, (String, (bool, (Option<bool>, bool))))>::fits(menu_head(item))
    &&& item.children.len() <= u64::MAX
    &&& menus_fit(item.children)
}

pub open spec fn menus_fit(items: Seq<TrayMenuItemView>) -> bool
    decreases items,
{
    items.len() > 0 ==> menu_fits(items[0]) && menus_fit(items.drop_first())
}

/// The bytes of a menu row: its own fields, then its children.
pub open spec fn wire_menu(item: TrayMenuItemView) -> Seq<u8>
    decreases item,
{
    let children = u64::wire(item.children.len() as u64) + wire_menus(item.children);
    <(i32, (String, (bool, (Option<bool>, bool))))>::wire(menu_head(item)) + children
}

/// The bytes of menu rows, one after the other.
pub open spec fn wire_menus(items: Seq<TrayMenuItemView>) -> Seq<u8>
    decreases items,
{
    if items.len() == 0 {
        seq![]
    } else {
        wire_menu(items[0]) + wire_menus(items.drop_first())
    }
}

/// The menu row at the front of `bytes`.
pub open spec fn parse_menu(bytes: Seq<u8>) -> Option<(TrayMenuItemView, nat)>
    decreases bytes.len(), 0nat,
{
    match MenuHead::parse(bytes) {
        None => None,
        Some((((id, (label, (enabled, (checked, separator)))), count), n)) => {
            if n == 0 || n > bytes.len() {
                None
            } else {
                match parse_menus(bytes.skip(n as int), count as nat) {
                    None => None,
                    Some((children, m)) => Some(
                        (
                            TrayMenuItemView { id, label, enabled, checked, separator, children },
                            n + m,
                        ),
                    ),
                }
            }
        },
    }
}

/// The first `count` menu rows at the front of `bytes`.
pub open spec fn parse_menus(bytes: Seq<u8>, count: nat) -> Option<(Seq<TrayMenuItemView>, nat)>
    decreases bytes.len(), count + 1,
{
    if count == 0 {
        Some((seq![], 0))
    } else {
        match parse_menu(bytes) {
            None => None,
            Some((item, n)) => if n > bytes.len() {
                None
            } else {
                match parse_menus(bytes.skip(n as int), (count - 1) as nat) {
                    None => None,
                    Some((items, m)) => Some((seq![item] + items, n + m)),
                }
            },
        }
    }
}

/// The words that refuse the menu row at the front of `bytes`.
pub open spec fn refusal_of_menu(bytes: Seq<u8>) -> Option<Seq<char>>
    decreases bytes.len(), 0nat,
{
    match MenuHead::parse(bytes) {
        None => MenuHead::refusal(bytes),
        Some(((_, count), n)) => if n == 0 || n > bytes.len() {
            None
        } else {
            refusal_of_menus(bytes.skip(n as int), count as nat)
        },
    }
}

/// The words that refuse one of the first `count` menu rows at the front of
/// `bytes`.
pub open spec fn refusal_of_menus(bytes: Seq<u8>, count: nat) -> Option<Seq<char>>
    decreases bytes.len(), count + 1,
{
    if count == 0 {
        None
    } else {
        match parse_menu(bytes) {
            None => refusal_of_menu(bytes),
            Some((_, n)) => if n > bytes.len() {
                None
            } else {
                refusal_of_menus(bytes.skip(n as int), (count - 1) as nat)
            },
        }
    }
}

proof fn menu_parse_bounded(bytes: Seq<u8>)
    ensures
        parse_menu(bytes) matches Some((_, n)) ==> n <= bytes.len(),
    decreases bytes.len(), 0nat,
{
    if let Some(((_, count), n)) = MenuHead::parse(bytes) {
        if 0 < n <= bytes.len() {
            menus_parse_bounded(bytes.skip(n as int), count as nat);
        }
    }
}

proof fn menus_parse_bounded(bytes: Seq<u8>, count: nat)
    ensures
        parse_menus(bytes, count) matches Some((_, n)) ==> n <= bytes.len(),
    decreases bytes.len(), count + 1,
{
    if count > 0 {
        menu_parse_bounded(bytes);
        if let Some((_, n)) = parse_menu(bytes) {
            menus_parse_bounded(bytes.skip(n as int), (count - 1) as nat);
        }
    }
}

proof fn menu_is_not_refused(bytes: Seq<u8>)
    ensures
        parse_menu(bytes) is Some ==> refusal_of_menu(bytes) is None,
    decreases bytes.len(), 0nat,
{
    if let Some(((_, count), n)) = MenuHead::parse(bytes) {
        if 0 < n <= bytes.len() {
            menus_are_not_refused(bytes.skip(n as int), count as nat);
        }
    }
}

proof fn menus_are_not_refused(bytes: Seq<u8>, count: nat)
    ensures
        parse_menus(bytes, count) is Some ==> refusal_of_menus(bytes, count) is None,
    decreases bytes.len(), count + 1,
{
    if count > 0 {
        if let Some((_, n)) = parse_menu(bytes) {
            if n <= bytes.len() {
                menus_are_not_refused(bytes.skip(n as int), (count - 1) as nat);
            }
        }
    }
}

proof fn menu_round_trip(item: TrayMenuItemView, rest: Seq<u8>)
    requires
        menu_fits(item),
    ensures
        parse_menu(wire_menu(item) + rest) == Some((item, wire_menu(item).len())),
    decreases item,
{
    numbers_read_back();
    let count = item.children.len() as u64;
    let head = MenuHead::wire((menu_head(item), count));
    let children = wire_menus(item.children);
    let bytes = wire_menu(item) + rest;
    assert(bytes =~= head + (children + rest));
    MenuHead::round_trip((menu_head(item), count), children + rest);
    assert(bytes.skip(head.len() as int) =~= children + rest);
    menus_round_trip(item.children, rest);
    assert(head.len() >= 8);
}

proof fn menus_round_trip(items: Seq<TrayMenuItemView>, rest: Seq<u8>)
    requires
        menus_fit(items),
    ensures
        parse_menus(wire_menus(items) + rest, items.len()) == Some(
            (items, wire_menus(items).len()),
        ),
    decreases items,
{
    if items.len() == 0 {
        assert(items =~= seq![]);
    } else {
        let first = wire_menu(items[0]);
        let others = wire_menus(items.drop_first());
        let bytes = wire_menus(items) + rest;
        assert(bytes =~= first + (others + rest));
        menu_round_trip(items[0], others + rest);
        assert(bytes.skip(first.len() as int) =~= others + rest);
        menus_round_trip(items.drop_first(), rest);
        assert(seq![items[0]] + items.drop_first() =~= items);
    }
}

proof fn wire_menus_push(items: Seq<TrayMenuItemView>, item: TrayMenuItemView)
    ensures
        wire_menus(items.push(item)) == wire_menus(items) + wire_menu(item),
        menus_fit(items.push(item)) == (menus_fit(items) && menu_fits(item)),
    decreases items.len(),
{
    reveal_with_fuel(wire_menus, 2);
    reveal_with_fuel(menus_fit, 2);
    if items.len() == 0 {
        assert(items.push(item).drop_first() =~= items);
        assert(wire_menus(items.push(item)) =~= wire_menus(items) + wire_menu(item));
    } else {
        assert(items.push(item).drop_first() =~= items.drop_first().push(item));
        wire_menus_push(items.drop_first(), item);
        assert(wire_menus(items.push(item)) =~= wire_menus(items) + wire_menu(item));
    }
}

fn put_menu(item: &TrayMenuItem, out: &mut Vec<u8>) -> (result: Result<(), WireError>)
    ensures
        result is Ok,
        menu_fits(menu_view(*item)),
        final(out)@ == old(out)@ + wire_menu(menu_view(*item)),
    decreases *item,
{
    item.id.put(out)?;
    item.label.put(out)?;
    item.enabled.put(out)?;
    item.checked.put(out)?;
    item.separator.put(out)?;
    (item.children.len() as u64).put(out)?;
    let ghost children = menu_view(*item).children;
    let ghost head = out@;
    let mut i: usize = 0;
    assert(children.take(0) =~= seq![]);
    while i < item.children.len()
        invariant
            i <= item.children@.len(),
            children == menu_view(*item).children,
            menus_fit(children.take(i as int)),
            out@ == head + wire_menus(children.take(i as int)),
        decreases item.children@.len() - i,
    {
        assert(decreases_to!(*item => item.children@[i as int]));
        put_menu(&item.children[i], out)?;
        proof {
            wire_menus_push(children.take(i as int), children[i as int]);
            assert(children.take(i as int).push(children[i as int]) =~= children.take(i + 1));
            assert(out@ =~= head + wire_menus(children.take(i + 1)));
        }
        i = i + 1;
    }
    assert(children.take(i as int) =~= children);
    assert(out@ =~= old(out)@ + wire_menu(menu_view(*item)));
    Ok(())
}

fn get_menu(bytes: &[u8]) -> (result: Result<(TrayMenuItem, usize), WireError>)
    ensures
        match parse_menu(bytes@) {
            Some((value, n)) => result matches Ok((item, k)) && menu_view(item) == value && k == n
                && n <= bytes@.len(),
            None => result matches Err(WireError::Decode(text)) && is_worded(
                text@,
                refusal_of_menu(bytes@),
            ),
        },
    decreases bytes@.len(), 0nat,
{
    let (head, n): (MenuHead, usize) = MenuHead::get(bytes)?;
    let ((id, (label, (enabled, (checked, separator)))), count) = head;
    proof {
        menu_parse_bounded(bytes@);
    }
    assert(bytes.len() == bytes@.len());
    let (children, m): (Vec<TrayMenuItem>, usize) = get_menus(after(bytes, n), count)?;
    let item = TrayMenuItem { id, label, enabled, checked, separator, children };
    assert(menu_view(item).children =~= item.children.deep_view());
    Ok((item, n + m))
}

fn get_menus(bytes: &[u8], count: u64) -> (result: Result<(Vec<TrayMenuItem>, usize), WireError>)
    ensures
        match parse_menus(bytes@, count as nat) {
            Some((value, n)) => result matches Ok((items, k)) && items.deep_view() == value && k
                == n && n <= bytes@.len(),
            None => result matches Err(WireError::Decode(text)) && is_worded(
                text@,
                refusal_of_menus(bytes@, count as nat),
            ),
        },
    decreases bytes@.len(), count + 1,
{
    let mut items: Vec<TrayMenuItem> = Vec::new();
    let mut at: usize = 0;
    let mut i: u64 = 0;
    assert(bytes@.skip(0) =~= bytes@);
    proof {
        menus_parse_bounded(bytes@, count as nat);
        if let Some((all, n)) = parse_menus(bytes@, count as nat) {
            assert(items.deep_view() + all =~= all);
        }
    }
    while i < count
        invariant
            i <= count,
            at <= bytes@.len(),
            refusal_of_menus(bytes@, count as nat) == refusal_of_menus(
                bytes@.skip(at as int),
                (count - i) as nat,
            ),
            match parse_menus(bytes@.skip(at as int), (count - i) as nat) {
                None => parse_menus(bytes@, count as nat) is None,
                Some((others, n)) => parse_menus(bytes@, count as nat) == Some(
                    (items.deep_view() + others, (at + n) as nat),
                ),
            },
        decreases count - i,
    {
        let ghost before = items.deep_view();
        let (item, n): (TrayMenuItem, usize) = get_menu(after(bytes, at))?;
        let ghost value = menu_view(item);
        items.push(item);
        proof {
            assert(items.deep_view() =~= before.push(value));
            assert(bytes@.skip(at as int).skip(n as int) =~= bytes@.skip(at + n));
            if let Some((others, _)) = parse_menus(bytes@.skip(at + n), (count - i - 1) as nat) {
                assert(before + (seq![value] + others) =~= before.push(value) + others);
            }
        }
        assert(bytes.len() == bytes@.len());
        at = at + n;
        i = i + 1;
    }
    proof {
        assert(items.deep_view() + Seq::<TrayMenuItemView>::empty() =~= items.deep_view());
    }
    Ok((items, at))
}

impl Wire for TrayMenuItem {
    open spec fn fits(value: TrayMenuItemView) -> bool {
        menu_fits(value)
    }

    open spec fn wire(value: TrayMenuItemView) -> Seq<u8> {
        wire_menu(value)
    }

    open spec fn parse(bytes: Seq<u8>) -> Option<(TrayMenuItemView, nat)> {
        parse_menu(bytes)
    }

    open spec fn refusal(bytes: Seq<u8>) -> Option<Seq<char>> {
        refusal_of_menu(bytes)
    }

    proof fn round_trip(value: TrayMenuItemView, rest: Seq<u8>) {
        menu_round_trip(value, rest);
    }

    proof fn parse_bounded(bytes: Seq<u8>) {
        menu_parse_bounded(bytes);
    }

    proof fn values_are_not_refused(bytes: Seq<u8>) {
        menu_is_not_refused(bytes);
    }

    fn put(&self, out: &mut Vec<u8>) -> (result: Result<(), WireError>) {
        put_menu(self, out)
    }

    fn get(bytes: &[u8]) -> (result: Result<(TrayMenuItem, usize), WireError>) {
        get_menu(bytes)
    }
}

/// A variant index in front of a value: both are read back.
proof fn tagged_round_trip<T: Wire>(tag: u32, value: T::V, rest: Seq<u8>)
    requires
        T::fits(value),
    ensures
        ({
            let bytes = u32::wire(tag) + T::wire(value) + rest;
            &&& u32::parse(bytes) == Some((tag, 4nat))
            &&& T::parse(bytes.skip(4)) == Some((value, T::wire(value).len()))
            &&& (u32::wire(tag) + T::wire(value)).len() == T::wire(value).len() + 4
        }),
{
    numbers_read_back();
    let bytes = u32::wire(tag) + T::wire(value) + rest;
    assert(bytes =~= u32::wire(tag) + (T::wire(value) + rest));
    u32::round_trip(tag, T::wire(value) + rest);
    assert(bytes.skip(4) =~= T::wire(value) + rest);
    T::round_trip(value, rest);
}

impl Wire for InputEvent {
    open spec fn fits(value: InputEvent) -> bool {
        match value {
            InputEvent::PointerMotion { id, position } => <(SurfaceId, Point)>::fits(
                (id, position),
            ),
            InputEvent::PointerMotionRelative { dx, dy } => <(u64, u64)>::fits((dx, dy)),
            InputEvent::PointerButton { button, state } => <(u32, Press)>::fits((button, state)),
            InputEvent::PointerScroll { id, dx, dy } => <(SurfaceId, (u64, u64))>::fits(
                (id, (dx, dy)),
            ),
            InputEvent::Key { keycode, state } => <(u32, Press)>::fits((keycode, state)),
        }
    }

    open spec fn wire(value: InputEvent) -> Seq<u8> {
        match value {
            InputEvent::PointerMotion { id, position } => u32::wire(0)
                + <(SurfaceId, Point)>::wire((id, position)),
            InputEvent::PointerMotionRelative { dx, dy } => u32::wire(1)
                + <(u64, u64)>::wire((dx, dy)),
            InputEvent::PointerButton { button, state } => u32::wire(2)
                + <(u32, Press)>::wire((button, state)),
            InputEvent::PointerScroll { id, dx, dy } => u32::wire(3)
                + <(SurfaceId, (u64, u64))>::wire((id, (dx, dy))),
            InputEvent::Key { keycode, state } => u32::wire(4)
                + <(u32, Press)>::wire((keycode, state)),
        }
    }

    open spec fn parse(bytes: Seq<u8>) -> Option<(InputEvent, nat)> {
        match u32::parse(bytes) {
            Some((0u32, _)) => match <(SurfaceId, Point)>::parse(bytes.skip(4)) {
                Some(((id, position), n)) => Some(
                    (InputEvent::PointerMotion { id, position }, n + 4),
                ),
                None => None,
            },
            Some((1u32, _)) => match <(u64, u64)>::parse(bytes.skip(4)) {
                Some(((dx, dy), n)) => Some((InputEvent::PointerMotionRelative { dx, dy }, n + 4)),
                None => None,
            },
            Some((2u32, _)) => match <(u32, Press)>::parse(bytes.skip(4)) {
                Some(((button, state), n)) => Some(
                    (InputEvent::PointerButton { button, state }, n + 4),
                ),
                None => None,
            },
            Some((3u32, _)) => match <(SurfaceId, (u64, u64))>::parse(bytes.skip(4)) {
                Some(((id, (dx, dy)), n)) => Some(
                    (InputEvent::PointerScroll { id, dx, dy }, n + 4),
                ),
                None => None,
            },
            Some((4u32, _)) => match <(u32, Press)>::parse(bytes.skip(4)) {
                Some(((keycode, state), n)) => Some((InputEvent::Key { keycode, state }, n + 4)),
                None => None,
            },
            _ => None,
        }
    }

    open spec fn refusal(bytes: Seq<u8>) -> Option<Seq<char>> {
        match u32::parse(bytes) {
            None => None,
            Some((0u32, _)) => <(SurfaceId, Point)>::refusal(bytes.skip(4)),
            Some((1u32, _)) => <(u64, u64)>::refusal(bytes.skip(4)),
            Some((2u32, _)) => <(u32, Press)>::refusal(bytes.skip(4)),
            Some((3u32, _)) => <(SurfaceId, (u64, u64))>::refusal(bytes.skip(4)),
            Some((4u32, _)) => <(u32, Press)>::refusal(bytes.skip(4)),
            Some((tag, _)) => Some(no_such_variant(tag, 5)),
        }
    }

    proof fn round_trip(value: InputEvent, rest: Seq<u8>) {
        match value {
            InputEvent::PointerMotion { id, position } => {
                tagged_round_trip::<(SurfaceId, Point)>(0, (id, position), rest);
            },
            InputEvent::PointerMotionRelative { dx, dy } => {
                tagged_round_trip::<(u64, u64)>(1, (dx, dy), rest);
            },
            InputEvent::PointerButton { button, state } => {
                tagged_round_trip::<(u32, Press)>(2, (button, state), rest);
            },
            InputEvent::PointerScroll { id, dx, dy } => {
                tagged_round_trip::<(SurfaceId, (u64, u64))>(3, (id, (dx, dy)), rest);
            },
            InputEvent::Key { keycode, state } => {
                tagged_round_trip::<(u32, Press)>(4, (keycode, state), rest);
            },
        }
    }

    proof fn parse_bounded(bytes: Seq<u8>) {
        <(SurfaceId, (u64, u64))>::parse_bounded(bytes.skip(4));
        <(SurfaceId, Point)>::parse_bounded(bytes.skip(4));
        <(u32, Press)>::parse_bounded(bytes.skip(4));
        <(u64, u64)>::parse_bounded(bytes.skip(4));
    }

    proof fn values_are_not_refused(bytes: Seq<u8>) {
        <(SurfaceId, (u64, u64))>::values_are_not_refused(bytes.skip(4));
        <(SurfaceId, Point)>::values_are_not_refused(bytes.skip(4));
        <(u32, Press)>::values_are_not_refused(bytes.skip(4));
        <(u64, u64)>::values_are_not_refused(bytes.skip(4));
    }

    fn put(&self, out: &mut Vec<u8>) -> (result: Result<(), WireError>) {
        match self {
            InputEvent::PointerMotion { id, position } => {
                0u32.put(out)?;
                id.put(out)?;
                position.put(out)?;
            },
            InputEvent::PointerMotionRelative { dx, dy } => {
                1u32.put(out)?;
                dx.put(out)?;
                dy.put(out)?;
            },
            InputEvent::PointerButton { button, state } => {
                2u32.put(out)?;
                button.put(out)?;
                state.put(out)?;
            },
            InputEvent::PointerScroll { id, dx, dy } => {
                3u32.put(out)?;
                id.put(out)?;
                dx.put(out)?;
                dy.put(out)?;
            },
            InputEvent::Key { keycode, state } => {
                4u32.put(out)?;
                keycode.put(out)?;
                state.put(out)?;
            },
        }
        assert(out@ =~= old(out)@ + Self::wire(self.deep_view()));
        Ok(())
    }

    fn get(bytes: &[u8]) -> (result: Result<(InputEvent, usize), WireError>) {
        let (tag, _): (u32, usize) = u32::get(bytes)?;
        let body = after(bytes, 4);
        assert(bytes.len() == bytes@.len());
        match tag {
            0 => {
                let ((id, position), n): ((SurfaceId, Point), usize) =
                    <(SurfaceId, Point)>::get(body)?;
                Ok((InputEvent::PointerMotion { id, position }, n + 4))
            },
            1 => {
                let ((dx, dy), n): ((u64, u64), usize) = <(u64, u64)>::get(body)?;
                Ok((InputEvent::PointerMotionRelative { dx, dy }, n + 4))
            },
            2 => {
                let ((button, state), n): ((u32, Press), usize) = <(u32, Press)>::get(body)?;
                Ok((InputEvent::PointerButton { button, state }, n + 4))
            },
            3 => {
                let ((id, (dx, dy)), n): ((SurfaceId, (u64, u64)), usize) =
                    <(SurfaceId, (u64, u64))>::get(body)?;
                Ok((InputEvent::PointerScroll { id, dx, dy }, n + 4))
            },
            4 => {
                let ((keycode, state), n): ((u32, Press), usize) = <(u32, Press)>::get(body)?;
                Ok((InputEvent::Key { keycode, state }, n + 4))
            },
            _ => Err(unknown_variant(tag, 5)),
        }
    }
}

impl Wire for ServerMessage {
    open spec fn fits(value: ServerMessageView) -> bool {
        match value {
            ServerMessageView::SurfaceCreated(created) => <SurfaceCreated>::fits(created),
            ServerMessageView::SurfaceFrame(frame) => <SurfaceFrame>::fits(frame),
            ServerMessageView::Applications(list) => <Vec<Application>>::fits(list),
            ServerMessageView::SurfaceTitle { id, title } => <(SurfaceId, String)>::fits(
                (id, title),
            ),
            ServerMessageView::SurfaceAppId { id, app_id } => <(SurfaceId, String)>::fits(
                (id, app_id),
            ),
            ServerMessageView::SurfaceRequest { id, request } => <(SurfaceId, WindowRequest)>::fits(
                (id, request),
            ),
            ServerMessageView::Tray { items } => <Vec<TrayItem>>::fits(items),
            ServerMessageView::TrayMenu { id, items } => <(String, Vec<TrayMenuItem>)>::fits(
                (id, items),
            ),
            ServerMessageView::Audio { payload } => <Bytes>::fits(payload),
            ServerMessageView::Clipboard { text } => <String>::fits(text),
            ServerMessageView::PointerConstraint { id, locked } => <(SurfaceId, bool)>::fits(
                (id, locked),
            ),
            ServerMessageView::Cursor { name } => <String>::fits(name),
            ServerMessageView::SurfaceDestroyed { id } => <SurfaceId>::fits(id),
        }
    }

    open spec fn wire(value: ServerMessageView) -> Seq<u8> {
        match value {
            ServerMessageView::SurfaceCreated(created) => u32::wire(0)
                + <SurfaceCreated>::wire(created),
            ServerMessageView::SurfaceFrame(frame) => u32::wire(1) + <SurfaceFrame>::wire(frame),
            ServerMessageView::Applications(list) => u32::wire(2) + <Vec<Application>>::wire(list),
            ServerMessageView::SurfaceTitle { id, title } => u32::wire(3)
                + <(SurfaceId, String)>::wire((id, title)),
            ServerMessageView::SurfaceAppId { id, app_id } => u32::wire(4)
                + <(SurfaceId, String)>::wire((id, app_id)),
            ServerMessageView::SurfaceRequest { id, request } => u32::wire(5)
                + <(SurfaceId, WindowRequest)>::wire((id, request)),
            ServerMessageView::Tray { items } => u32::wire(6) + <Vec<TrayItem>>::wire(items),
            ServerMessageView::TrayMenu { id, items } => u32::wire(7)
                + <(String, Vec<TrayMenuItem>)>::wire((id, items)),
            ServerMessageView::Audio { payload } => u32::wire(8) + <Bytes>::wire(payload),
            ServerMessageView::Clipboard { text } => u32::wire(9) + <String>::wire(text),
            ServerMessageView::PointerConstraint { id, locked } => u32::wire(10)
                + <(SurfaceId, bool)>::wire((id, locked)),
            ServerMessageView::Cursor { name } => u32::wire(11) + <String>::wire(name),
            ServerMessageView::SurfaceDestroyed { id } => u32::wire(12) + <SurfaceId>::wire(id),
        }
    }

    open spec fn parse(bytes: Seq<u8>) -> Option<(ServerMessageView, nat)> {
        match u32::parse(bytes) {
            Some((0u32, _)) => match <SurfaceCreated>::parse(bytes.skip(4)) {
                Some((created, n)) => Some((ServerMessageView::SurfaceCreated(created), n + 4)),
                None => None,
            },
            Some((1u32, _)) => match <SurfaceFrame>::parse(bytes.skip(4)) {
                Some((frame, n)) => Some((ServerMessageView::SurfaceFrame(frame), n + 4)),
                None => None,
            },
            Some((2u32, _)) => match <Vec<Application>>::parse(bytes.skip(4)) {
                Some((list, n)) => Some((ServerMessageView::Applications(list), n + 4)),
                None => None,
            },
            Some((3u32, _)) => match <(SurfaceId, String)>::parse(bytes.skip(4)) {
                Some(((id, title), n)) => Some(
                    (ServerMessageView::SurfaceTitle { id, title }, n + 4),
                ),
                None => None,
            },
            Some((4u32, _)) => match <(SurfaceId, String)>::parse(bytes.skip(4)) {
                Some(((id, app_id), n)) => Some(
                    (ServerMessageView::SurfaceAppId { id, app_id }, n + 4),
                ),
                None => None,
            },
            Some((5u32, _)) => match <(SurfaceId, WindowRequest)>::parse(bytes.skip(4)) {
                Some(((id, request), n)) => Some(
                    (ServerMessageView::SurfaceRequest { id, request }, n + 4),
                ),
                None => None,
            },
            Some((6u32, _)) => match <Vec<TrayItem>>::parse(bytes.skip(4)) {
                Some((items, n)) => Some((ServerMessageView::Tray { items }, n + 4)),
                None => None,
            },
            Some((7u32, _)) => match <(String, Vec<TrayMenuItem>)>::parse(bytes.skip(4)) {
                Some(((id, items), n)) => Some((ServerMessageView::TrayMenu { id, items }, n + 4)),
                None => None,
            },
            Some((8u32, _)) => match <Bytes>::parse(bytes.skip(4)) {
                Some((payload, n)) => Some((ServerMessageView::Audio { payload }, n + 4)),
                None => None,
            },
            Some((9u32, _)) => match <String>::parse(bytes.skip(4)) {
                Some((text, n)) => Some((ServerMessageView::Clipboard { text }, n + 4)),
                None => None,
            },
            Some((10u32, _)) => match <(SurfaceId, bool)>::parse(bytes.skip(4)) {
                Some(((id, locked), n)) => Some(
                    (ServerMessageView::PointerConstraint { id, locked }, n + 4),
                ),
                None => None,
            },
            Some((11u32, _)) => match <String>::parse(bytes.skip(4)) {
                Some((name, n)) => Some((ServerMessageView::Cursor { name }, n + 4)),
                None => None,
            },
            Some((12u32, _)) => match <SurfaceId>::parse(bytes.skip(4)) {
                Some((id, n)) => Some((ServerMessageView::SurfaceDestroyed { id }, n + 4)),
                None => None,
            },
            _ => None,
        }
    }

    open spec fn refusal(bytes: Seq<u8>) -> Option<Seq<char>> {
        match u32::parse(bytes) {
            None => None,
            Some((0u32, _)) => <SurfaceCreated>::refusal(bytes.skip(4)),
            Some((1u32, _)) => <SurfaceFrame>::refusal(bytes.skip(4)),
            Some((2u32, _)) => <Vec<Application>>::refusal(bytes.skip(4)),
            Some((3u32, _)) => <(SurfaceId, String)>::refusal(bytes.skip(4)),
            Some((4u32, _)) => <(SurfaceId, String)>::refusal(bytes.skip(4)),
            Some((5u32, _)) => <(SurfaceId, WindowRequest)>::refusal(bytes.skip(4)),
            Some((6u32, _)) => <Vec<TrayItem>>::refusal(bytes.skip(4)),
            Some((7u32, _)) => <(String, Vec<TrayMenuItem>)>::refusal(bytes.skip(4)),
            Some((8u32, _)) => <Bytes>::refusal(bytes.skip(4)),
            Some((9u32, _)) => <String>::refusal(bytes.skip(4)),
            Some((10u32, _)) => <(SurfaceId, bool)>::refusal(bytes.skip(4)),
            Some((11u32, _)) => <String>::refusal(bytes.skip(4)),
            Some((12u32, _)) => <SurfaceId>::refusal(bytes.skip(4)),
            Some((tag, _)) => Some(no_such_variant(tag, 13)),
        }
    }

    proof fn round_trip(value: ServerMessageView, rest: Seq<u8>) {
        match value {
            ServerMessageView::SurfaceCreated(created) => {
                tagged_round_trip::<SurfaceCreated>(0, created, rest);
            },
            ServerMessageView::SurfaceFrame(frame) => {
                tagged_round_trip::<SurfaceFrame>(1, frame, rest);
            },
            ServerMessageView::Applications(list) => {
                tagged_round_trip::<Vec<Application>>(2, list, rest);
            },
            ServerMessageView::SurfaceTitle { id, title } => {
                tagged_round_trip::<(SurfaceId, String)>(3, (id, title), rest);
            },
            ServerMessageView::SurfaceAppId { id, app_id } => {
                tagged_round_trip::<(SurfaceId, String)>(4, (id, app_id), rest);
            },
            ServerMessageView::SurfaceRequest { id, request } => {
                tagged_round_trip::<(SurfaceId, WindowRequest)>(5, (id, request), rest);
            },
            ServerMessageView::Tray { items } => {
                tagged_round_trip::<Vec<TrayItem>>(6, items, rest);
            },
            ServerMessageView::TrayMenu { id, items } => {
                tagged_round_trip::<(String, Vec<TrayMenuItem>)>(7, (id, items), rest);
            },
            ServerMessageView::Audio { payload } => {
                tagged_round_trip::<Bytes>(8, payload, rest);
            },
            ServerMessageView::Clipboard { text } => {
                tagged_round_trip::<String>(9, text, rest);
            },
            ServerMessageView::PointerConstraint { id, locked } => {
                tagged_round_trip::<(SurfaceId, bool)>(10, (id, locked), rest);
            },
            ServerMessageView::Cursor { name } => {
                tagged_round_trip::<String>(11, name, rest);
            },
            ServerMessageView::SurfaceDestroyed { id } => {
                tagged_round_trip::<SurfaceId>(12, id, rest);
            },
        }
    }

    proof fn parse_bounded(bytes: Seq<u8>) {
        <(String, Vec<TrayMenuItem>)>::parse_bounded(bytes.skip(4));
        <(SurfaceId, String)>::parse_bounded(bytes.skip(4));
        <(SurfaceId, WindowRequest)>::parse_bounded(bytes.skip(4));
        <(SurfaceId, bool)>::parse_bounded(bytes.skip(4));
        <Bytes>::parse_bounded(bytes.skip(4));
        <String>::parse_bounded(bytes.skip(4));
        <SurfaceCreated>::parse_bounded(bytes.skip(4));
        <SurfaceFrame>::parse_bounded(bytes.skip(4));
        <SurfaceId>::parse_bounded(bytes.skip(4));
        <Vec<Application>>::parse_bounded(bytes.skip(4));
        <Vec<TrayItem>>::parse_bounded(bytes.skip(4));
    }

    proof fn values_are_not_refused(bytes: Seq<u8>) {
        <(String, Vec<TrayMenuItem>)>::values_are_not_refused(bytes.skip(4));
        <(SurfaceId, String)>::values_are_not_refused(bytes.skip(4));
        <(SurfaceId, WindowRequest)>::values_are_not_refused(bytes.skip(4));
        <(SurfaceId, bool)>::values_are_not_refused(bytes.skip(4));
        <Bytes>::values_are_not_refused(bytes.skip(4));
        <String>::values_are_not_refused(bytes.skip(4));
        <SurfaceCreated>::values_are_not_refused(bytes.skip(4));
        <SurfaceFrame>::values_are_not_refused(bytes.skip(4));
        <SurfaceId>::values_are_not_refused(bytes.skip(4));
        <Vec<Application>>::values_are_not_refused(bytes.skip(4));
        <Vec<TrayItem>>::values_are_not_refused(bytes.skip(4));
    }

    fn put(&self, out: &mut Vec<u8>) -> (result: Result<(), WireError>) {
        match self {
            ServerMessage::SurfaceCreated(created) => {
                0u32.put(out)?;
                created.put(out)?;
            },
            ServerMessage::SurfaceFrame(frame) => {
                1u32.put(out)?;
                frame.put(out)?;
            },
            ServerMessage::Applications(list) => {
                2u32.put(out)?;
                list.put(out)?;
            },
            ServerMessage::SurfaceTitle { id, title } => {
                3u32.put(out)?;
                id.put(out)?;
                title.put(out)?;
            },
            ServerMessage::SurfaceAppId { id, app_id } => {
                4u32.put(out)?;
                id.put(out)?;
                app_id.put(out)?;
            },
            ServerMessage::SurfaceRequest { id, request } => {
                5u32.put(out)?;
                id.put(out)?;
                request.put(out)?;
            },
            ServerMessage::Tray { items } => {
                6u32.put(out)?;
                items.put(out)?;
            },
            ServerMessage::TrayMenu { id, items } => {
                7u32.put(out)?;
                id.put(out)?;
                items.put(out)?;
            },
            ServerMessage::Audio { payload } => {
                8u32.put(out)?;
                put_bytes(payload, out)?;
            },
            ServerMessage::Clipboard { text } => {
                9u32.put(out)?;
                text.put(out)?;
            },
            ServerMessage::PointerConstraint { id, locked } => {
                10u32.put(out)?;
                id.put(out)?;
                locked.put(out)?;
            },
            ServerMessage::Cursor { name } => {
                11u32.put(out)?;
                name.put(out)?;
            },
            ServerMessage::SurfaceDestroyed { id } => {
                12u32.put(out)?;
                id.put(out)?;
            },
        }
        assert(out@ =~= old(out)@ + Self::wire(self.deep_view()));
        Ok(())
    }

    fn get(bytes: &[u8]) -> (result: Result<(ServerMessage, usize), WireError>) {
        let (tag, _): (u32, usize) = u32::get(bytes)?;
        let body = after(bytes, 4);
        assert(bytes.len() == bytes@.len());
        match tag {
            0 => {
                let (created, n): (SurfaceCreated, usize) = <SurfaceCreated>::get(body)?;
                Ok((ServerMessage::SurfaceCreated(created), n + 4))
            },
            1 => {
                let (frame, n): (SurfaceFrame, usize) = <SurfaceFrame>::get(body)?;
                Ok((ServerMessage::SurfaceFrame(frame), n + 4))
            },
            2 => {
                let (list, n): (Vec<Application>, usize) = <Vec<Application>>::get(body)?;
                Ok((ServerMessage::Applications(list), n + 4))
            },
            3 => {
                let ((id, title), n): ((SurfaceId, String), usize) =
                    <(SurfaceId, String)>::get(body)?;
                Ok((ServerMessage::SurfaceTitle { id, title }, n + 4))
            },
            4 => {
                let ((id, app_id), n): ((SurfaceId, String), usize) =
                    <(SurfaceId, String)>::get(body)?;
                Ok((ServerMessage::SurfaceAppId { id, app_id }, n + 4))
            },
            5 => {
                let ((id, request), n): ((SurfaceId, WindowRequest), usize) =
                    <(SurfaceId, WindowRequest)>::get(body)?;
                Ok((ServerMessage::SurfaceRequest { id, request }, n + 4))
            },
            6 => {
                let (items, n): (Vec<TrayItem>, usize) = <Vec<TrayItem>>::get(body)?;
                Ok((ServerMessage::Tray { items }, n + 4))
            },
            7 => {
                let ((id, items), n): ((String, Vec<TrayMenuItem>), usize) =
                    <(String, Vec<TrayMenuItem>)>::get(body)?;
                Ok((ServerMessage::TrayMenu { id, items }, n + 4))
            },
            8 => {
                let (payload, n): (Bytes, usize) = <Bytes>::get(body)?;
                Ok((ServerMessage::Audio { payload: payload.0 }, n + 4))
            },
            9 => {
                let (text, n): (String, usize) = <String>::get(body)?;
                Ok((ServerMessage::Clipboard { text }, n + 4))
            },
            10 => {
                let ((id, locked), n): ((SurfaceId, bool), usize) = <(SurfaceId, bool)>::get(body)?;
                Ok((ServerMessage::PointerConstraint { id, locked }, n + 4))
            },
            11 => {
                let (name, n): (String, usize) = <String>::get(body)?;
                Ok((ServerMessage::Cursor { name }, n + 4))
            },
            12 => {
                let (id, n): (SurfaceId, usize) = <SurfaceId>::get(body)?;
                Ok((ServerMessage::SurfaceDestroyed { id }, n + 4))
            },
            _ => Err(unknown_variant(tag, 13)),
        }
    }
}

impl Wire for ClientMessage {
    open spec fn fits(value: ClientMessageView) -> bool {
        match value {
            ClientMessageView::Input(event) => <InputEvent>::fits(event),
            ClientMessageView::FramePresented { id } => <SurfaceId>::fits(id),
            ClientMessageView::Focus { id } => <SurfaceId>::fits(id),
            ClientMessageView::Clipboard { text } => <String>::fits(text),
            ClientMessageView::Launch { id } => <u32>::fits(id),
            ClientMessageView::TrayActivate { id, secondary } => <(String, bool)>::fits(
                (id, secondary),
            ),
            ClientMessageView::TrayMenuOpen { id } => <String>::fits(id),
            ClientMessageView::TrayMenuClick { id, item } => <(String, i32)>::fits((id, item)),
            ClientMessageView::CloseSurface { id } => <SurfaceId>::fits(id),
            ClientMessageView::SetMaximized { id, size } => <(SurfaceId, Option<Size>)>::fits(
                (id, size),
            ),
            ClientMessageView::SetSize { id, size } => <(SurfaceId, Size)>::fits((id, size)),
            ClientMessageView::Resize { size } => <Size>::fits(size),
            ClientMessageView::RequestKeyframe => true,
        }
    }

    open spec fn wire(value: ClientMessageView) -> Seq<u8> {
        match value {
            ClientMessageView::Input(event) => u32::wire(0) + <InputEvent>::wire(event),
            ClientMessageView::FramePresented { id } => u32::wire(1) + <SurfaceId>::wire(id),
            ClientMessageView::Focus { id } => u32::wire(2) + <SurfaceId>::wire(id),
            ClientMessageView::Clipboard { text } => u32::wire(3) + <String>::wire(text),
            ClientMessageView::Launch { id } => u32::wire(4) + <u32>::wire(id),
            ClientMessageView::TrayActivate { id, secondary } => u32::wire(5)
                + <(String, bool)>::wire((id, secondary)),
            ClientMessageView::TrayMenuOpen { id } => u32::wire(6) + <String>::wire(id),
            ClientMessageView::TrayMenuClick { id, item } => u32::wire(7)
                + <(String, i32)>::wire((id, item)),
            ClientMessageView::CloseSurface { id } => u32::wire(8) + <SurfaceId>::wire(id),
            ClientMessageView::SetMaximized { id, size } => u32::wire(9)
                + <(SurfaceId, Option<Size>)>::wire((id, size)),
            ClientMessageView::SetSize { id, size } => u32::wire(10)
                + <(SurfaceId, Size)>::wire((id, size)),
            ClientMessageView::Resize { size } => u32::wire(11) + <Size>::wire(size),
            ClientMessageView::RequestKeyframe => u32::wire(12),
        }
    }

    open spec fn parse(bytes: Seq<u8>) -> Option<(ClientMessageView, nat)> {
        match u32::parse(bytes) {
            Some((0u32, _)) => match <InputEvent>::parse(bytes.skip(4)) {
                Some((event, n)) => Some((ClientMessageView::Input(event), n + 4)),
                None => None,
            },
            Some((1u32, _)) => match <SurfaceId>::parse(bytes.skip(4)) {
                Some((id, n)) => Some((ClientMessageView::FramePresented { id }, n + 4)),
                None => None,
            },
            Some((2u32, _)) => match <SurfaceId>::parse(bytes.skip(4)) {
                Some((id, n)) => Some((ClientMessageView::Focus { id }, n + 4)),
                None => None,
            },
            Some((3u32, _)) => match <String>::parse(bytes.skip(4)) {
                Some((text, n)) => Some((ClientMessageView::Clipboard { text }, n + 4)),
                None => None,
            },
            Some((4u32, _)) => match <u32>::parse(bytes.skip(4)) {
                Some((id, n)) => Some((ClientMessageView::Launch { id }, n + 4)),
                None => None,
            },
            Some((5u32, _)) => match <(String, bool)>::parse(bytes.skip(4)) {
                Some(((id, secondary), n)) => Some(
                    (ClientMessageView::TrayActivate { id, secondary }, n + 4),
                ),
                None => None,
            },
            Some((6u32, _)) => match <String>::parse(bytes.skip(4)) {
                Some((id, n)) => Some((ClientMessageView::TrayMenuOpen { id }, n + 4)),
                None => None,
            },
            Some((7u32, _)) => match <(String, i32)>::parse(bytes.skip(4)) {
                Some(((id, item), n)) => Some(
                    (ClientMessageView::TrayMenuClick { id, item }, n + 4),
                ),
                None => None,
            },
            Some((8u32, _)) => match <SurfaceId>::parse(bytes.skip(4)) {
                Some((id, n)) => Some((ClientMessageView::CloseSurface { id }, n + 4)),
                None => None,
            },
            Some((9u32, _)) => match <(SurfaceId, Option<Size>)>::parse(bytes.skip(4)) {
                Some(((id, size), n)) => Some(
                    (ClientMessageView::SetMaximized { id, size }, n + 4),
                ),
                None => None,
            },
            Some((10u32, _)) => match <(SurfaceId, Size)>::parse(bytes.skip(4)) {
                Some(((id, size), n)) => Some((ClientMessageView::SetSize { id, size }, n + 4)),
                None => None,
            },
            Some((11u32, _)) => match <Size>::parse(bytes.skip(4)) {
                Some((size, n)) => Some((ClientMessageView::Resize { size }, n + 4)),
                None => None,
            },
            Some((12u32, n)) => Some((ClientMessageView::RequestKeyframe, n)),
            _ => None,
        }
    }

    open spec fn refusal(bytes: Seq<u8>) -> Option<Seq<char>> {
        match u32::parse(bytes) {
            None => None,
            Some((0u32, _)) => <InputEvent>::refusal(bytes.skip(4)),
            Some((1u32, _)) => <SurfaceId>::refusal(bytes.skip(4)),
            Some((2u32, _)) => <SurfaceId>::refusal(bytes.skip(4)),
            Some((3u32, _)) => <String>::refusal(bytes.skip(4)),
            Some((4u32, _)) => <u32>::refusal(bytes.skip(4)),
            Some((5u32, _)) => <(String, bool)>::refusal(bytes.skip(4)),
            Some((6u32, _)) => <String>::refusal(bytes.skip(4)),
            Some((7u32, _)) => <(String, i32)>::refusal(bytes.skip(4)),
            Some((8u32, _)) => <SurfaceId>::refusal(bytes.skip(4)),
            Some((9u32, _)) => <(SurfaceId, Option<Size>)>::refusal(bytes.skip(4)),
            Some((10u32, _)) => <(SurfaceId, Size)>::refusal(bytes.skip(4)),
            Some((11u32, _)) => <Size>::refusal(bytes.skip(4)),
            Some((12u32, _)) => None,
            Some((tag, _)) => Some(no_such_variant(tag, 13)),
        }
    }

    proof fn round_trip(value: ClientMessageView, rest: Seq<u8>) {
        match value {
            ClientMessageView::Input(event) => {
                tagged_round_trip::<InputEvent>(0, event, rest);
            },
            ClientMessageView::FramePresented { id } => {
                tagged_round_trip::<SurfaceId>(1, id, rest);
            },
            ClientMessageView::Focus { id } => {
                tagged_round_trip::<SurfaceId>(2, id, rest);
            },
            ClientMessageView::Clipboard { text } => {
                tagged_round_trip::<String>(3, text, rest);
            },
            ClientMessageView::Launch { id } => {
                tagged_round_trip::<u32>(4, id, rest);
            },
            ClientMessageView::TrayActivate { id, secondary } => {
                tagged_round_trip::<(String, bool)>(5, (id, secondary), rest);
            },
            ClientMessageView::TrayMenuOpen { id } => {
                tagged_round_trip::<String>(6, id, rest);
            },
            ClientMessageView::TrayMenuClick { id, item } => {
                tagged_round_trip::<(String, i32)>(7, (id, item), rest);
            },
            ClientMessageView::CloseSurface { id } => {
                tagged_round_trip::<SurfaceId>(8, id, rest);
            },
            ClientMessageView::SetMaximized { id, size } => {
                tagged_round_trip::<(SurfaceId, Option<Size>)>(9, (id, size), rest);
            },
            ClientMessageView::SetSize { id, size } => {
                tagged_round_trip::<(SurfaceId, Size)>(10, (id, size), rest);
            },
            ClientMessageView::Resize { size } => {
                tagged_round_trip::<Size>(11, size, rest);
            },
            ClientMessageView::RequestKeyframe => {
                u32::round_trip(12, rest);
            },
        }
    }

    proof fn parse_bounded(bytes: Seq<u8>) {
        <(String, bool)>::parse_bounded(bytes.skip(4));
        <(String, i32)>::parse_bounded(bytes.skip(4));
        <(SurfaceId, Option<Size>)>::parse_bounded(bytes.skip(4));
        <(SurfaceId, Size)>::parse_bounded(bytes.skip(4));
        <InputEvent>::parse_bounded(bytes.skip(4));
        <Size>::parse_bounded(bytes.skip(4));
        <String>::parse_bounded(bytes.skip(4));
        <SurfaceId>::parse_bounded(bytes.skip(4));
        <u32>::parse_bounded(bytes.skip(4));
    }

    proof fn values_are_not_refused(bytes: Seq<u8>) {
        <(String, bool)>::values_are_not_refused(bytes.skip(4));
        <(String, i32)>::values_are_not_refused(bytes.skip(4));
        <(SurfaceId, Option<Size>)>::values_are_not_refused(bytes.skip(4));
        <(SurfaceId, Size)>::values_are_not_refused(bytes.skip(4));
        <InputEvent>::values_are_not_refused(bytes.skip(4));
        <Size>::values_are_not_refused(bytes.skip(4));
        <String>::values_are_not_refused(bytes.skip(4));
        <SurfaceId>::values_are_not_refused(bytes.skip(4));
        <u32>::values_are_not_refused(bytes.skip(4));
    }

    fn put(&self, out: &mut Vec<u8>) -> (result: Result<(), WireError>) {
        match self {
            ClientMessage::Input(event) => {
                0u32.put(out)?;
                event.put(out)?;
            },
            ClientMessage::FramePresented { id } => {
                1u32.put(out)?;
                id.put(out)?;
            },
            ClientMessage::Focus { id } => {
                2u32.put(out)?;
                id.put(out)?;
            },
            ClientMessage::Clipboard { text } => {
                3u32.put(out)?;
                text.put(out)?;
            },
            ClientMessage::Launch { id } => {
                4u32.put(out)?;
                id.put(out)?;
            },
            ClientMessage::TrayActivate { id, secondary } => {
                5u32.put(out)?;
                id.put(out)?;
                secondary.put(out)?;
            },
            ClientMessage::TrayMenuOpen { id } => {
                6u32.put(out)?;
                id.put(out)?;
            },
            ClientMessage::TrayMenuClick { id, item } => {
                7u32.put(out)?;
                id.put(out)?;
                item.put(out)?;
            },
            ClientMessage::CloseSurface { id } => {
                8u32.put(out)?;
                id.put(out)?;
            },
            ClientMessage::SetMaximized { id, size } => {
                9u32.put(out)?;
                id.put(out)?;
                size.put(out)?;
            },
            ClientMessage::SetSize { id, size } => {
                10u32.put(out)?;
                id.put(out)?;
                size.put(out)?;
            },
            ClientMessage::Resize { size } => {
                11u32.put(out)?;
                size.put(out)?;
            },
            ClientMessage::RequestKeyframe => {
                12u32.put(out)?;
            },
        }
        assert(out@ =~= old(out)@ + Self::wire(self.deep_view()));
        Ok(())
    }

    fn get(bytes: &[u8]) -> (result: Result<(ClientMessage, usize), WireError>) {
        let (tag, _): (u32, usize) = u32::get(bytes)?;
        let body = after(bytes, 4);
        assert(bytes.len() == bytes@.len());
        match tag {
            0 => {
                let (event, n): (InputEvent, usize) = <InputEvent>::get(body)?;
                Ok((ClientMessage::Input(event), n + 4))
            },
            1 => {
                let (id, n): (SurfaceId, usize) = <SurfaceId>::get(body)?;
                Ok((ClientMessage::FramePresented { id }, n + 4))
            },
            2 => {
                let (id, n): (SurfaceId, usize) = <SurfaceId>::get(body)?;
                Ok((ClientMessage::Focus { id }, n + 4))
            },
            3 => {
                let (text, n): (String, usize) = <String>::get(body)?;
                Ok((ClientMessage::Clipboard { text }, n + 4))
            },
            4 => {
                let (id, n): (u32, usize) = <u32>::get(body)?;
                Ok((ClientMessage::Launch { id }, n + 4))
            },
            5 => {
                let ((id, secondary), n): ((String, bool), usize) = <(String, bool)>::get(body)?;
                Ok((ClientMessage::TrayActivate { id, secondary }, n + 4))
            },
            6 => {
                let (id, n): (String, usize) = <String>::get(body)?;
                Ok((ClientMessage::TrayMenuOpen { id }, n + 4))
            },
            7 => {
                let ((id, item), n): ((String, i32), usize) = <(String, i32)>::get(body)?;
                Ok((ClientMessage::TrayMenuClick { id, item }, n + 4))
            },
            8 => {
                let (id, n): (SurfaceId, usize) = <SurfaceId>::get(body)?;
                Ok((ClientMessage::CloseSurface { id }, n + 4))
            },
            9 => {
                let ((id, size), n): ((SurfaceId, Option<Size>), usize) =
                    <(SurfaceId, Option<Size>)>::get(body)?;
                Ok((ClientMessage::SetMaximized { id, size }, n + 4))
            },
            10 => {
                let ((id, size), n): ((SurfaceId, Size), usize) = <(SurfaceId, Size)>::get(body)?;
                Ok((ClientMessage::SetSize { id, size }, n + 4))
            },
            11 => {
                let (size, n): (Size, usize) = <Size>::get(body)?;
                Ok((ClientMessage::Resize { size }, n + 4))
            },
            12 => Ok((ClientMessage::RequestKeyframe, 4)),
            _ => Err(unknown_variant(tag, 13)),
        }
    }
}

} // verus!
