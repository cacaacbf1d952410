//! Values on the wire: `bincode`'s fixed-width little-endian layout.
//!
//! Integers are little-endian at their own width, a variant index is a `u32`,
//! a length is a `u64`, an `Option` or a `bool` is one byte that is 0 or 1, a
//! string is its length and its UTF-8 bytes, and the fields of a struct follow
//! each other with nothing in between. Bytes after a whole value are ignored.

use crate::text::{decimal, format_decimal};
use vstd::prelude::*;
use vstd::slice::slice_subrange;
use vstd::utf8::{decode_utf8, encode_utf8, valid_utf8};

verus! {

/// A framing error.
#[derive(Debug, Clone, PartialEq, Eq)]
pub enum WireError {
    /// A message could not be encoded.
    Encode(String),
    /// A frame could not be decoded into the expected message.
    Decode(String),
}

/// A number as so many bytes, the lowest first.
pub open spec fn little_endian(value: int, width: nat) -> Seq<u8>
    decreases width,
{
    if width == 0 {
        seq![]
    } else {
        seq![(value % 256) as u8] + little_endian(value / 256, (width - 1) as nat)
    }
}

/// The number that bytes make up, the lowest first.
pub open spec fn number(bytes: Seq<u8>) -> nat
    decreases bytes.len(),
{
    if bytes.len() == 0 {
        0
    } else {
        bytes[0] as nat + 256 * number(bytes.drop_first())
    }
}

/// How many numbers so many bytes can hold.
pub open spec fn numbers_in(width: nat) -> int
    decreases width,
{
    if width == 0 {
        1
    } else {
        256 * numbers_in((width - 1) as nat)
    }
}

proof fn number_reads_back(value: int, width: nat)
    requires
        0 <= value < numbers_in(width),
    ensures
        little_endian(value, width).len() == width,
        number(little_endian(value, width)) == value,
    decreases width,
{
    if width > 0 {
        let rest = little_endian(value / 256, (width - 1) as nat);
        number_reads_back(value / 256, (width - 1) as nat);
        assert(little_endian(value, width).drop_first() =~= rest);
    }
}

/// The numbers that so many bytes make up are those that they can hold.
pub proof fn numbers_are_bounded(bytes: Seq<u8>)
    ensures
        number(bytes) < numbers_in(bytes.len()),
    decreases bytes.len(),
{
    if bytes.len() > 0 {
        numbers_are_bounded(bytes.drop_first());
    }
}

/// A number reads back from its bytes, at either width that the wire has.
pub proof fn numbers_read_back()
    ensures
        forall|value: u32|
            {
                &&& (#[trigger] little_endian(value as int, 4)).len() == 4
                &&& number(little_endian(value as int, 4)) == value
            },
        forall|value: u64|
            {
                &&& (#[trigger] little_endian(value as int, 8)).len() == 8
                &&& number(little_endian(value as int, 8)) == value
            },
{
    reveal_with_fuel(numbers_in, 9);
    assert forall|value: u32|
        {
            &&& (#[trigger] little_endian(value as int, 4)).len() == 4
            &&& number(little_endian(value as int, 4)) == value
        } by {
        number_reads_back(value as int, 4);
    }
    assert forall|value: u64|
        {
            &&& (#[trigger] little_endian(value as int, 8)).len() == 8
            &&& number(little_endian(value as int, 8)) == value
        } by {
        number_reads_back(value as int, 8);
    }
}

/// A value with a place in a wire frame.
///
/// `wire` is the byte sequence of a value, `parse` reads one off the front of a
/// byte sequence and says how many bytes it took.
pub trait Wire: DeepView + Sized {
    /// The lengths inside the value fit the wire's 64-bit length fields.
    spec fn fits(value: Self::V) -> bool;

    /// The bytes of a value.
    spec fn wire(value: Self::V) -> Seq<u8>;

    /// The value at the front of `bytes` and the number of bytes it takes, or
    /// `None` where the front of `bytes` is no such value.
    spec fn parse(bytes: Seq<u8>) -> Option<(Self::V, nat)>;

    /// The words that refuse `bytes`, where they are the format's own: those for a
    /// variant index that no variant has and for a byte that is no flag. `None`
    /// where the input ends early or a text is not UTF-8, whose words are the
    /// standard library's.
    spec fn refusal(bytes: Seq<u8>) -> Option<Seq<char>>;

    /// What was written is read back, whatever follows it.
    proof fn round_trip(value: Self::V, rest: Seq<u8>)
        requires
            Self::fits(value),
        ensures
            Self::parse(Self::wire(value) + rest) == Some((value, Self::wire(value).len())),
    ;

    /// A value never takes more bytes than there are.
    proof fn parse_bounded(bytes: Seq<u8>)
        ensures
            Self::parse(bytes) matches Some((_, n)) ==> n <= bytes.len(),
    ;

    /// Only what is refused has words that refuse it.
    proof fn values_are_not_refused(bytes: Seq<u8>)
        ensures
            Self::parse(bytes) is Some ==> Self::refusal(bytes) is None,
    ;

    /// Append the value to a frame.
    fn put(&self, out: &mut Vec<u8>) -> (result: Result<(), WireError>)
        ensures
            result is Ok,
            Self::fits(self.deep_view()),
            final(out)@ == old(out)@ + Self::wire(self.deep_view()),
    ;

    /// Read a value off the front of `bytes`.
    fn get(bytes: &[u8]) -> (result: Result<(Self, usize), WireError>)
        ensures
            match Self::parse(bytes@) {
                Some((value, n)) => result matches Ok((v, k)) && v.deep_view() == value && k == n
                    && n <= bytes@.len(),
                None => result matches Err(WireError::Decode(text)) && is_worded(
                    text@,
                    Self::refusal(bytes@),
                ),
            },
    ;
}

/// Whether a refusal is worded so, where its words are known.
pub open spec fn is_worded(text: Seq<char>, words: Option<Seq<char>>) -> bool {
    words matches Some(known) ==> text == known
}

/// The words for a byte that is no truth value.
pub open spec fn no_truth_value(byte: u8) -> Seq<char> {
    "invalid u8 while decoding bool, expected 0 or 1, found "@ + decimal(byte as nat)
}

/// The words for a byte that does not say whether a value is there.
pub open spec fn no_option_tag(byte: u8) -> Seq<char> {
    "tag for enum is not valid, found "@ + decimal(byte as nat)
}

/// `bincode::serialize` of a `u32`: the four little-endian bytes, and no error,
/// since there is no size limit and writing to memory does not fail.
#[verifier::external_body]
fn serialize_u32(value: u32) -> (result: Result<Vec<u8>, WireError>)
    ensures
        result is Ok,
        result->Ok_0@ == little_endian(value as int, 4),
{
    bincode::serialize(&value).map_err(|err| WireError::Encode(err.to_string()))
}

/// `bincode::serialize` of a `u64`: the eight little-endian bytes, and no error.
#[verifier::external_body]
fn serialize_u64(value: u64) -> (result: Result<Vec<u8>, WireError>)
    ensures
        result is Ok,
        result->Ok_0@ == little_endian(value as int, 8),
{
    bincode::serialize(&value).map_err(|err| WireError::Encode(err.to_string()))
}

/// `bincode::serialize` of a string: the number of its UTF-8 bytes as a `u64`,
/// then those bytes, and no error.
#[verifier::external_body]
fn serialize_str(value: &str) -> (result: Result<Vec<u8>, WireError>)
    ensures
        result is Ok,
        result->Ok_0@ == little_endian(encode_utf8(value@).len() as int, 8)
            + encode_utf8(value@),
{
    bincode::serialize(value).map_err(|err| WireError::Encode(err.to_string()))
}

/// `bincode::deserialize` into a `u32`: the first four bytes, little-endian;
/// an error where there are fewer. What the error says is not stated: its words
/// come from the standard library's end-of-file error.
#[verifier::external_body]
fn deserialize_u32(bytes: &[u8]) -> (result: Result<u32, WireError>)
    ensures
        if bytes@.len() >= 4 {
            result == Ok::<u32, WireError>(number(bytes@.subrange(0, 4)) as u32)
        } else {
            result matches Err(WireError::Decode(_))
        },
{
    bincode::deserialize(bytes).map_err(|err| WireError::Decode(err.to_string()))
}

/// `bincode::deserialize` into a `u64`: the first eight bytes, little-endian;
/// an error, whose words are not stated, where there are fewer.
#[verifier::external_body]
fn deserialize_u64(bytes: &[u8]) -> (result: Result<u64, WireError>)
    ensures
        if bytes@.len() >= 8 {
            result == Ok::<u64, WireError>(number(bytes@.subrange(0, 8)) as u64)
        } else {
            result matches Err(WireError::Decode(_))
        },
{
    bincode::deserialize(bytes).map_err(|err| WireError::Decode(err.to_string()))
}

/// The text at the front of `bytes`: a `u64` length, then that many bytes, which
/// have to be UTF-8.
pub open spec fn parse_text(bytes: Seq<u8>) -> Option<(Seq<char>, nat)> {
    if bytes.len() < 8 {
        None
    } else {
        let n = number(bytes.subrange(0, 8)) as int;
        if bytes.len() - 8 < n || !valid_utf8(bytes.subrange(8, 8 + n)) {
            None
        } else {
            Some((decode_utf8(bytes.subrange(8, 8 + n)), (8 + n) as nat))
        }
    }
}

/// `bincode::deserialize` into a `String`: the `u64` length at the front, then
/// that many bytes as UTF-8; an error, whose words are not stated, where there
/// are too few bytes or they are not UTF-8.
#[verifier::external_body]
fn deserialize_string(bytes: &[u8]) -> (result: Result<String, WireError>)
    ensures
        match parse_text(bytes@) {
            Some((text, _)) => result matches Ok(s) && s@ == text,
            None => result matches Err(WireError::Decode(_)),
        },
{
    bincode::deserialize(bytes).map_err(|err| WireError::Decode(err.to_string()))
}

/// What is left of `bytes` after the first `n`.
pub(crate) fn after(bytes: &[u8], n: usize) -> (rest: &[u8])
    requires
        n <= bytes@.len(),
    ensures
        rest@ == bytes@.skip(n as int),
{
    let rest = slice_subrange(bytes, n, bytes.len());
    assert(rest@ =~= bytes@.skip(n as int));
    rest
}

impl Wire for u32 {
    open spec fn fits(value: u32) -> bool {
        true
    }

    open spec fn wire(value: u32) -> Seq<u8> {
        little_endian(value as int, 4)
    }

    open spec fn parse(bytes: Seq<u8>) -> Option<(u32, nat)> {
        if bytes.len() < 4 {
            None
        } else {
            Some((number(bytes.subrange(0, 4)) as u32, 4))
        }
    }

    open spec fn refusal(bytes: Seq<u8>) -> Option<Seq<char>> {
        None
    }

    proof fn round_trip(value: u32, rest: Seq<u8>) {
        numbers_read_back();
        assert((Self::wire(value) + rest).subrange(0, 4) =~= Self::wire(value));
    }

    proof fn parse_bounded(bytes: Seq<u8>) {
    }

    proof fn values_are_not_refused(bytes: Seq<u8>) {
    }

    fn put(&self, out: &mut Vec<u8>) -> (result: Result<(), WireError>) {
        let mut bytes = serialize_u32(*self)?;
        out.append(&mut bytes);
        Ok(())
    }

    fn get(bytes: &[u8]) -> (result: Result<(u32, usize), WireError>) {
        let value = deserialize_u32(bytes)?;
        Ok((value, 4))
    }
}

impl Wire for u64 {
    open spec fn fits(value: u64) -> bool {
        true
    }

    open spec fn wire(value: u64) -> Seq<u8> {
        little_endian(value as int, 8)
    }

    open spec fn parse(bytes: Seq<u8>) -> Option<(u64, nat)> {
        if bytes.len() < 8 {
            None
        } else {
            Some((number(bytes.subrange(0, 8)) as u64, 8))
        }
    }

    open spec fn refusal(bytes: Seq<u8>) -> Option<Seq<char>> {
        None
    }

    proof fn round_trip(value: u64, rest: Seq<u8>) {
        numbers_read_back();
        assert((Self::wire(value) + rest).subrange(0, 8) =~= Self::wire(value));
    }

    proof fn parse_bounded(bytes: Seq<u8>) {
    }

    proof fn values_are_not_refused(bytes: Seq<u8>) {
    }

    fn put(&self, out: &mut Vec<u8>) -> (result: Result<(), WireError>) {
        let mut bytes = serialize_u64(*self)?;
        out.append(&mut bytes);
        Ok(())
    }

    fn get(bytes: &[u8]) -> (result: Result<(u64, usize), WireError>) {
        let value = deserialize_u64(bytes)?;
        Ok((value, 8))
    }
}

/// The two's complement bit pattern of an `i32`, read as an `i32` again.
proof fn bits_and_back(value: i32)
    ensures
        (value as u32) as i32 == value,
{
    assert((value as u32) as i32 == value) by (bit_vector);
}

impl Wire for i32 {
    open spec fn fits(value: i32) -> bool {
        true
    }

    open spec fn wire(value: i32) -> Seq<u8> {
        u32::wire(value as u32)
    }

    open spec fn parse(bytes: Seq<u8>) -> Option<(i32, nat)> {
        match u32::parse(bytes) {
            Some((value, n)) => Some((value as i32, n)),
            None => None,
        }
    }

    open spec fn refusal(bytes: Seq<u8>) -> Option<Seq<char>> {
        None
    }

    proof fn round_trip(value: i32, rest: Seq<u8>) {
        u32::round_trip(value as u32, rest);
        bits_and_back(value);
    }

    proof fn parse_bounded(bytes: Seq<u8>) {
    }

    proof fn values_are_not_refused(bytes: Seq<u8>) {
    }

    fn put(&self, out: &mut Vec<u8>) -> (result: Result<(), WireError>) {
        (*self as u32).put(out)
    }

    fn get(bytes: &[u8]) -> (result: Result<(i32, usize), WireError>) {
        let (value, n): (u32, usize) = u32::get(bytes)?;
        Ok((value as i32, n))
    }
}

impl Wire for bool {
    open spec fn fits(value: bool) -> bool {
        true
    }

    open spec fn wire(value: bool) -> Seq<u8> {
        if value {
            seq![1u8]
        } else {
            seq![0u8]
        }
    }

    open spec fn parse(bytes: Seq<u8>) -> Option<(bool, nat)> {
        if bytes.len() < 1 || bytes[0] > 1 {
            None
        } else {
            Some((bytes[0] == 1, 1))
        }
    }

    open spec fn refusal(bytes: Seq<u8>) -> Option<Seq<char>> {
        if bytes.len() > 0 && bytes[0] > 1 {
            Some(no_truth_value(bytes[0]))
        } else {
            None
        }
    }

    proof fn round_trip(value: bool, rest: Seq<u8>) {
    }

    proof fn parse_bounded(bytes: Seq<u8>) {
    }

    proof fn values_are_not_refused(bytes: Seq<u8>) {
    }

    fn put(&self, out: &mut Vec<u8>) -> (result: Result<(), WireError>) {
        let byte: u8 = if *self {
            1
        } else {
            0
        };
        out.push(byte);
        Ok(())
    }

    fn get(bytes: &[u8]) -> (result: Result<(bool, usize), WireError>) {
        if bytes.len() < 1 {
            return Err(WireError::Decode("io error: unexpected end of file".to_owned()));
        }
        if bytes[0] > 1 {
            let text = "invalid u8 while decoding bool, expected 0 or 1, found ".to_owned();
            return Err(WireError::Decode(text.concat(format_decimal(bytes[0] as u64).as_str())));
        }
        Ok((bytes[0] == 1, 1))
    }
}

impl Wire for String {
    open spec fn fits(value: Seq<char>) -> bool {
        encode_utf8(value).len() <= u64::MAX
    }

    open spec fn wire(value: Seq<char>) -> Seq<u8> {
        u64::wire(encode_utf8(value).len() as u64) + encode_utf8(value)
    }

    open spec fn parse(bytes: Seq<u8>) -> Option<(Seq<char>, nat)> {
        parse_text(bytes)
    }

    open spec fn refusal(bytes: Seq<u8>) -> Option<Seq<char>> {
        None
    }

    proof fn round_trip(value: Seq<char>, rest: Seq<u8>) {
        numbers_read_back();
        let text = encode_utf8(value);
        let length = u64::wire(text.len() as u64);
        let bytes = Self::wire(value) + rest;
        assert(bytes.subrange(0, 8) =~= length);
        assert(bytes.subrange(8, (8 + text.len()) as int) =~= text);
        vstd::utf8::encode_utf8_valid_utf8(value);
        vstd::utf8::encode_utf8_decode_utf8(value);
    }

    proof fn parse_bounded(bytes: Seq<u8>) {
    }

    proof fn values_are_not_refused(bytes: Seq<u8>) {
    }

    fn put(&self, out: &mut Vec<u8>) -> (result: Result<(), WireError>) {
        let text = self.as_str();
        let length: usize = text.as_bytes().len();
        let mut bytes = serialize_str(text)?;
        assert(length == encode_utf8(self@).len());
        out.append(&mut bytes);
        Ok(())
    }

    fn get(bytes: &[u8]) -> (result: Result<(String, usize), WireError>) {
        let value = deserialize_string(bytes)?;
        proof {
            let n = number(bytes@.subrange(0, 8)) as int;
            vstd::utf8::decode_utf8_encode_utf8(bytes@.subrange(8, 8 + n));
        }
        let length: usize = value.as_str().as_bytes().len();
        assert(bytes.len() == bytes@.len());
        Ok((value, 8 + length))
    }
}

impl<A: Wire, B: Wire> Wire for (A, B) {
    open spec fn fits(value: (A::V, B::V)) -> bool {
        A::fits(value.0) && B::fits(value.1)
    }

    open spec fn wire(value: (A::V, B::V)) -> Seq<u8> {
        A::wire(value.0) + B::wire(value.1)
    }

    open spec fn parse(bytes: Seq<u8>) -> Option<((A::V, B::V), nat)> {
        match A::parse(bytes) {
            None => None,
            Some((a, n)) => match B::parse(bytes.skip(n as int)) {
                None => None,
                Some((b, m)) => Some(((a, b), n + m)),
            },
        }
    }

    open spec fn refusal(bytes: Seq<u8>) -> Option<Seq<char>> {
        match A::parse(bytes) {
            None => A::refusal(bytes),
            Some((_, n)) => B::refusal(bytes.skip(n as int)),
        }
    }

    proof fn round_trip(value: (A::V, B::V), rest: Seq<u8>) {
        let a = A::wire(value.0);
        let b = B::wire(value.1);
        assert(Self::wire(value) + rest =~= a + (b + rest));
        A::round_trip(value.0, b + rest);
        assert((a + (b + rest)).skip(a.len() as int) =~= b + rest);
        B::round_trip(value.1, rest);
    }

    proof fn parse_bounded(bytes: Seq<u8>) {
        A::parse_bounded(bytes);
        if let Some((_, n)) = A::parse(bytes) {
            B::parse_bounded(bytes.skip(n as int));
        }
    }

    proof fn values_are_not_refused(bytes: Seq<u8>) {
        A::values_are_not_refused(bytes);
        if let Some((_, n)) = A::parse(bytes) {
            B::values_are_not_refused(bytes.skip(n as int));
        }
    }

    fn put(&self, out: &mut Vec<u8>) -> (result: Result<(), WireError>) {
        self.0.put(out)?;
        self.1.put(out)?;
        assert(out@ =~= old(out)@ + Self::wire(self.deep_view()));
        Ok(())
    }

    fn get(bytes: &[u8]) -> (result: Result<((A, B), usize), WireError>) {
        let (a, n): (A, usize) = A::get(bytes)?;
        let (b, m): (B, usize) = B::get(after(bytes, n))?;
        proof {
            Self::parse_bounded(bytes@);
        }
        assert(bytes.len() == bytes@.len());
        Ok(((a, b), n + m))
    }
}

impl<T: Wire> Wire for Option<T> {
    open spec fn fits(value: Option<T::V>) -> bool {
        value matches Some(inner) ==> T::fits(inner)
    }

    open spec fn wire(value: Option<T::V>) -> Seq<u8> {
        match value {
            None => seq![0u8],
            Some(inner) => seq![1u8] + T::wire(inner),
        }
    }

    open spec fn parse(bytes: Seq<u8>) -> Option<(Option<T::V>, nat)> {
        match bool::parse(bytes) {
            None => None,
            Some((false, _)) => Some((None, 1)),
            Some((true, _)) => match T::parse(bytes.skip(1)) {
                None => None,
                Some((inner, n)) => Some((Some(inner), n + 1)),
            },
        }
    }

    open spec fn refusal(bytes: Seq<u8>) -> Option<Seq<char>> {
        if bytes.len() == 0 || bytes[0] == 0 {
            None
        } else if bytes[0] == 1 {
            T::refusal(bytes.skip(1))
        } else {
            Some(no_option_tag(bytes[0]))
        }
    }

    proof fn round_trip(value: Option<T::V>, rest: Seq<u8>) {
        if let Some(inner) = value {
            assert((Self::wire(value) + rest).skip(1) =~= T::wire(inner) + rest);
            T::round_trip(inner, rest);
        }
    }

    proof fn parse_bounded(bytes: Seq<u8>) {
        T::parse_bounded(bytes.skip(1));
    }

    proof fn values_are_not_refused(bytes: Seq<u8>) {
        T::values_are_not_refused(bytes.skip(1));
    }

    fn put(&self, out: &mut Vec<u8>) -> (result: Result<(), WireError>) {
        match self {
            None => {
                out.push(0);
            },
            Some(inner) => {
                out.push(1);
                inner.put(out)?;
            },
        }
        assert(out@ =~= old(out)@ + Self::wire(self.deep_view()));
        Ok(())
    }

    fn get(bytes: &[u8]) -> (result: Result<(Option<T>, usize), WireError>) {
        if bytes.len() > 0 && bytes[0] > 1 {
            let text = "tag for enum is not valid, found ".to_owned();
            return Err(WireError::Decode(text.concat(format_decimal(bytes[0] as u64).as_str())));
        }
        let (present, _): (bool, usize) = bool::get(bytes)?;
        if present {
            let (inner, n): (T, usize) = T::get(after(bytes, 1))?;
            assert(bytes.len() == bytes@.len());
            Ok((Some(inner), n + 1))
        } else {
            Ok((None, 1))
        }
    }
}

/// The bytes of the items of a list, one after the other.
pub open spec fn wire_items<T: Wire>(items: Seq<T::V>) -> Seq<u8>
    decreases items.len(),
{
    if items.len() == 0 {
        seq![]
    } else {
        T::wire(items[0]) + wire_items::<T>(items.drop_first())
    }
}

/// The first `count` items at the front of `bytes`, one after the other.
pub open spec fn parse_items<T: Wire>(bytes: Seq<u8>, count: nat) -> Option<(Seq<T::V>, nat)>
    decreases count,
{
    if count == 0 {
        Some((seq![], 0))
    } else {
        match T::parse(bytes) {
            None => None,
            Some((item, n)) => match parse_items::<T>(bytes.skip(n as int), (count - 1) as nat) {
                None => None,
                Some((items, m)) => Some((seq![item] + items, n + m)),
            },
        }
    }
}

/// The words that refuse one of the first `count` items at the front of `bytes`.
pub open spec fn refusal_of_items<T: Wire>(bytes: Seq<u8>, count: nat) -> Option<Seq<char>>
    decreases count,
{
    if count == 0 {
        None
    } else {
        match T::parse(bytes) {
            None => T::refusal(bytes),
            Some((_, n)) => refusal_of_items::<T>(bytes.skip(n as int), (count - 1) as nat),
        }
    }
}

pub(crate) proof fn wire_items_push<T: Wire>(items: Seq<T::V>, item: T::V)
    ensures
        wire_items::<T>(items.push(item)) == wire_items::<T>(items) + T::wire(item),
    decreases items.len(),
{
    reveal_with_fuel(wire_items, 2);
    if items.len() == 0 {
        assert(items.push(item).drop_first() =~= items);
        assert(wire_items::<T>(items.push(item)) =~= wire_items::<T>(items) + T::wire(item));
    } else {
        assert(items.push(item).drop_first() =~= items.drop_first().push(item));
        wire_items_push::<T>(items.drop_first(), item);
        assert(wire_items::<T>(items.push(item)) =~= wire_items::<T>(items) + T::wire(item));
    }
}

proof fn items_round_trip<T: Wire>(items: Seq<T::V>, rest: Seq<u8>)
    requires
        forall|i: int| 0 <= i < items.len() ==> T::fits(#[trigger] items[i]),
    ensures
        parse_items::<T>(wire_items::<T>(items) + rest, items.len()) == Some(
            (items, wire_items::<T>(items).len()),
        ),
    decreases items.len(),
{
    if items.len() == 0 {
        assert(items =~= seq![]);
    } else {
        let first = T::wire(items[0]);
        let others = wire_items::<T>(items.drop_first());
        let bytes = wire_items::<T>(items) + rest;
        assert(bytes =~= first + (others + rest));
        T::round_trip(items[0], others + rest);
        assert(bytes.skip(first.len() as int) =~= others + rest);
        items_round_trip::<T>(items.drop_first(), rest);
        assert(seq![items[0]] + items.drop_first() =~= items);
    }
}

proof fn parse_items_bounded<T: Wire>(bytes: Seq<u8>, count: nat)
    ensures
        parse_items::<T>(bytes, count) matches Some((_, n)) ==> n <= bytes.len(),
    decreases count,
{
    if count > 0 {
        T::parse_bounded(bytes);
        if let Some((_, n)) = T::parse(bytes) {
            parse_items_bounded::<T>(bytes.skip(n as int), (count - 1) as nat);
        }
    }
}

proof fn items_are_not_refused<T: Wire>(bytes: Seq<u8>, count: nat)
    ensures
        parse_items::<T>(bytes, count) is Some ==> refusal_of_items::<T>(bytes, count) is None,
    decreases count,
{
    if count > 0 {
        if let Some((_, n)) = T::parse(bytes) {
            items_are_not_refused::<T>(bytes.skip(n as int), (count - 1) as nat);
        }
    }
}

impl<T: Wire> Wire for Vec<T> {
    open spec fn fits(value: Seq<T::V>) -> bool {
        &&& value.len() <= u64::MAX
        &&& forall|i: int| 0 <= i < value.len() ==> T::fits(#[trigger] value[i])
    }

    open spec fn wire(value: Seq<T::V>) -> Seq<u8> {
        u64::wire(value.len() as u64) + wire_items::<T>(value)
    }

    open spec fn parse(bytes: Seq<u8>) -> Option<(Seq<T::V>, nat)> {
        match u64::parse(bytes) {
            None => None,
            Some((count, _)) => match parse_items::<T>(bytes.skip(8), count as nat) {
                None => None,
                Some((items, n)) => Some((items, n + 8)),
            },
        }
    }

    open spec fn refusal(bytes: Seq<u8>) -> Option<Seq<char>> {
        match u64::parse(bytes) {
            None => None,
            Some((count, _)) => refusal_of_items::<T>(bytes.skip(8), count as nat),
        }
    }

    proof fn round_trip(value: Seq<T::V>, rest: Seq<u8>) {
        let length = u64::wire(value.len() as u64);
        let items = wire_items::<T>(value);
        numbers_read_back();
        assert(Self::wire(value) + rest =~= length + (items + rest));
        u64::round_trip(value.len() as u64, items + rest);
        assert((length + (items + rest)).skip(8) =~= items + rest);
        items_round_trip::<T>(value, rest);
    }

    proof fn parse_bounded(bytes: Seq<u8>) {
        if let Some((count, _)) = u64::parse(bytes) {
            parse_items_bounded::<T>(bytes.skip(8), count as nat);
        }
    }

    proof fn values_are_not_refused(bytes: Seq<u8>) {
        if let Some((count, _)) = u64::parse(bytes) {
            items_are_not_refused::<T>(bytes.skip(8), count as nat);
        }
    }

    fn put(&self, out: &mut Vec<u8>) -> (result: Result<(), WireError>) {
        (self.len() as u64).put(out)?;
        let ghost items = self.deep_view();
        let ghost head = out@;
        let mut i: usize = 0;
        assert(items.take(0) =~= seq![]);
        while i < self.len()
            invariant
                i <= self@.len(),
                items == self.deep_view(),
                items.len() == self@.len(),
                forall|j: int| 0 <= j < i ==> T::fits(#[trigger] items[j]),
                out@ == head + wire_items::<T>(items.take(i as int)),
            decreases self@.len() - i,
        {
            self[i].put(out)?;
            proof {
                wire_items_push::<T>(items.take(i as int), items[i as int]);
                assert(items.take(i as int).push(items[i as int]) =~= items.take(i + 1));
                assert(out@ =~= head + wire_items::<T>(items.take(i + 1)));
            }
            i = i + 1;
        }
        assert(items.take(i as int) =~= items);
        assert(out@ =~= old(out)@ + Self::wire(items));
        Ok(())
    }

    fn get(bytes: &[u8]) -> (result: Result<(Vec<T>, usize), WireError>) {
        let (count, _): (u64, usize) = u64::get(bytes)?;
        let rest = after(bytes, 8);
        let mut items: Vec<T> = Vec::new();
        let mut at: usize = 0;
        let mut i: u64 = 0;
        assert(rest@.skip(0) =~= rest@);
        proof {
            parse_items_bounded::<T>(rest@, count as nat);
            if let Some((all, n)) = parse_items::<T>(rest@, count as nat) {
                assert(items.deep_view() + all =~= all);
            }
        }
        while i < count
            invariant
                i <= count,
                at <= rest@.len(),
                rest@ == bytes@.skip(8),
                bytes@.len() >= 8,
                u64::parse(bytes@) == Some((count, 8nat)),
                refusal_of_items::<T>(rest@, count as nat) == refusal_of_items::<T>(
                    rest@.skip(at as int),
                    (count - i) as nat,
                ),
                match parse_items::<T>(rest@.skip(at as int), (count - i) as nat) {
                    None => parse_items::<T>(rest@, count as nat) is None,
                    Some((others, n)) => parse_items::<T>(rest@, count as nat) == Some(
                        (items.deep_view() + others, (at + n) as nat),
                    ),
                },
            decreases count - i,
        {
            let ghost before = items.deep_view();
            let (item, n): (T, usize) = T::get(after(rest, at))?;
            let ghost value = item.deep_view();
            items.push(item);
            proof {
                assert(items.deep_view() =~= before.push(value));
                assert(rest@.skip(at as int).skip(n as int) =~= rest@.skip(at + n));
                if let Some((others, _)) = parse_items::<T>(
                    rest@.skip(at + n),
                    (count - i - 1) as nat,
                ) {
                    assert(before + (seq![value] + others) =~= before.push(value) + others);
                }
            }
            assert(rest.len() == rest@.len());
            at = at + n;
            i = i + 1;
        }
        proof {
            assert(items.deep_view() + Seq::<T::V>::empty() =~= items.deep_view());
        }
        assert(bytes.len() == bytes@.len());
        Ok((items, at + 8))
    }
}

/// The bytes of a byte string: its length, then the bytes as they are.
pub open spec fn wire_bytes(value: Seq<u8>) -> Seq<u8> {
    u64::wire(value.len() as u64) + value
}

/// The byte string at the front of `bytes`.
pub open spec fn parse_bytes(bytes: Seq<u8>) -> Option<(Seq<u8>, nat)> {
    match u64::parse(bytes) {
        None => None,
        Some((n, _)) => if bytes.len() - 8 < n {
            None
        } else {
            Some((bytes.subrange(8, 8 + n), (8 + n) as nat))
        },
    }
}

/// A run of bytes that travels as it is: pixels, a video packet, audio.
#[derive(Debug, Clone, PartialEq, Eq)]
pub struct Bytes(pub Vec<u8>);

impl DeepView for Bytes {
    type V = Seq<u8>;

    open spec fn deep_view(&self) -> Seq<u8> {
        self.0@
    }
}

/// Append a byte string to a frame.
pub(crate) fn put_bytes(value: &Vec<u8>, out: &mut Vec<u8>) -> (result: Result<(), WireError>)
    ensures
        result is Ok,
        value@.len() <= u64::MAX,
        final(out)@ == old(out)@ + wire_bytes(value@),
{
    (value.len() as u64).put(out)?;
    out.extend_from_slice(value.as_slice());
    assert(out@ =~= old(out)@ + wire_bytes(value@));
    Ok(())
}

impl Wire for Bytes {
    open spec fn fits(value: Seq<u8>) -> bool {
        value.len() <= u64::MAX
    }

    open spec fn wire(value: Seq<u8>) -> Seq<u8> {
        wire_bytes(value)
    }

    open spec fn parse(bytes: Seq<u8>) -> Option<(Seq<u8>, nat)> {
        parse_bytes(bytes)
    }

    open spec fn refusal(bytes: Seq<u8>) -> Option<Seq<char>> {
        None
    }

    proof fn round_trip(value: Seq<u8>, rest: Seq<u8>) {
        let length = u64::wire(value.len() as u64);
        numbers_read_back();
        assert(Self::wire(value) + rest =~= length + (value + rest));
        u64::round_trip(value.len() as u64, value + rest);
        assert((Self::wire(value) + rest).subrange(8, (8 + value.len()) as int) =~= value);
    }

    proof fn parse_bounded(bytes: Seq<u8>) {
    }

    proof fn values_are_not_refused(bytes: Seq<u8>) {
    }

    fn put(&self, out: &mut Vec<u8>) -> (result: Result<(), WireError>) {
        put_bytes(&self.0, out)
    }

    fn get(bytes: &[u8]) -> (result: Result<(Bytes, usize), WireError>) {
        let (count, _): (u64, usize) = u64::get(bytes)?;
        if ((bytes.len() - 8) as u64) < count {
            return Err(WireError::Decode("io error: unexpected end of file".to_owned()));
        }
        let end: usize = 8 + count as usize;
        let value = vstd::slice::slice_to_vec(slice_subrange(bytes, 8, end));
        Ok((Bytes(value), end))
    }
}

} // verus!
