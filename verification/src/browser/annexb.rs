//! The little bit of Annex B parsing the decoder needs: whether an access unit
//! carries a keyframe, and what codec string the stream's own SPS implies.

use vstd::prelude::*;

verus! {

/// Does a NAL unit begin behind the start code at `i`? Start codes are
/// `00 00 01` or `00 00 00 01`; both end with `00 00 01`.
pub open spec fn unit_at(payload: Seq<u8>, i: int) -> bool {
    &&& 0 <= i
    &&& i + 3 < payload.len()
    &&& payload[i] == 0
    &&& payload[i + 1] == 0
    &&& payload[i + 2] == 1
}

/// The type of the NAL unit behind the start code at `i`.
pub open spec fn unit_type(payload: Seq<u8>, i: int) -> u8 {
    payload[i + 3] & 0x1f
}

/// Is there an IDR picture (NAL type 5) in the access unit?
pub open spec fn has_idr(payload: Seq<u8>) -> bool {
    exists|i: int| #[trigger] unit_at(payload, i) && unit_type(payload, i) == 5
}

/// The NAL units of a payload: where the first byte of each stands, in the order
/// in which their start codes come.
pub fn nal_units(payload: &[u8]) -> (units: Vec<usize>)
    ensures
        forall|k: int| 0 <= k < units@.len() ==> unit_at(payload@, #[trigger] units@[k] - 3),
        forall|j: int, k: int| 0 <= j < k < units@.len() ==> units@[j] < units@[k],
        forall|i: int| #[trigger]
            unit_at(payload@, i) ==> exists|k: int|
                0 <= k < units@.len() && #[trigger] units@[k] == i + 3,
{
    assert(payload.len() == payload@.len());
    let mut units: Vec<usize> = Vec::new();
    let mut i: usize = 0;
    while payload.len() - i > 3
        invariant
            i <= payload@.len(),
            payload.len() == payload@.len(),
            forall|k: int|
                0 <= k < units@.len() ==> unit_at(payload@, #[trigger] units@[k] - 3) && units@[k]
                    < i + 3,
            forall|j: int, k: int| 0 <= j < k < units@.len() ==> units@[j] < units@[k],
            forall|j: int|
                j < i && #[trigger] unit_at(payload@, j) ==> exists|k: int|
                    0 <= k < units@.len() && #[trigger] units@[k] == j + 3,
        decreases payload@.len() - i,
    {
        if payload[i] == 0 && payload[i + 1] == 0 && payload[i + 2] == 1 {
            let ghost before = units@;
            assert(unit_at(payload@, i as int));
            units.push(i + 3);
            proof {
                assert(units@[before.len() as int] == i + 3);
                assert forall|j: int| j < i + 3 && #[trigger] unit_at(payload@, j) implies exists|
                    k: int,
                |
                    0 <= k < units@.len() && #[trigger] units@[k] == j + 3 by {
                    if j < i {
                        let k = choose|k: int|
                            0 <= k < before.len() && #[trigger] before[k] == j + 3;
                        assert(units@[k] == j + 3);
                    } else {
                        assert(j == i);
                    }
                }
            }
            i += 3;
        } else {
            assert(!unit_at(payload@, i as int));
            i += 1;
        }
    }
    units
}

/// Does this access unit contain an IDR (NAL type 5)?
pub fn is_keyframe(payload: &[u8]) -> (idr: bool)
    ensures
        idr == has_idr(payload@),
{
    let units = nal_units(payload);
    let mut k: usize = 0;
    while k < units.len()
        invariant
            k <= units@.len(),
            forall|j: int|
                0 <= j < units@.len() ==> unit_at(payload@, #[trigger] units@[j] - 3),
            forall|j: int|
                0 <= j < k ==> unit_type(payload@, #[trigger] units@[j] - 3) != 5,
        decreases units@.len() - k,
    {
        assert(unit_at(payload@, units@[k as int] - 3));
        if payload[units[k]] & 0x1f == 5 {
            return true;
        }
        k += 1;
    }
    false
}

/// An upper-case hexadecimal digit.
pub open spec fn hex_digit(value: int) -> char {
    if value < 10 {
        ('0' as int + value) as char
    } else {
        ('A' as int + (value - 10)) as char
    }
}

/// A byte as two upper-case hexadecimal digits.
pub open spec fn hex(byte: u8) -> Seq<char> {
    seq![hex_digit(byte as int / 16), hex_digit(byte as int % 16)]
}

fn push_hex(text: &mut String, byte: u8)
    ensures
        final(text)@ == old(text)@ + hex(byte),
{
    let high: u8 = byte / 16;
    let low: u8 = byte % 16;
    text.push(if high < 10 { (48u8 + high) as char } else { (65u8 + (high - 10)) as char });
    text.push(if low < 10 { (48u8 + low) as char } else { (65u8 + (low - 10)) as char });
    assert(text@ =~= old(text)@ + hex(byte));
}

/// Is there an SPS (NAL type 7) behind the start code at `i`, long enough to
/// name its profile, constraint flags and level?
pub open spec fn sps_at(payload: Seq<u8>, i: int) -> bool {
    unit_at(payload, i) && unit_type(payload, i) == 7 && payload.len() - (i + 3) >= 4
}

/// The codec string of the SPS behind the start code at `i`.
pub open spec fn codec_at(payload: Seq<u8>, i: int) -> Seq<char> {
    "avc1."@ + hex(payload[i + 4]) + hex(payload[i + 5]) + hex(payload[i + 6])
}

/// Is this the codec string of the access unit: that of its first SPS?
pub open spec fn is_codec(payload: Seq<u8>, codec: Option<Seq<char>>) -> bool {
    match codec {
        Some(text) => exists|i: int| #[trigger]
            sps_at(payload, i) && text == codec_at(payload, i) && forall|j: int|
                j < i ==> !sps_at(payload, j),
        None => forall|i: int| !(#[trigger] sps_at(payload, i)),
    }
}

/// Build the `avc1.PPCCLL` codec string out of the stream's own SPS.
///
/// Hardcoding this would be a guess: the encoder picks a level from the
/// resolution and bitrate it was given, so a 1280x800 surface and a 1080p one do
/// not agree, and a codec string below the real level can be rejected outright.
pub fn codec_string(payload: &[u8]) -> (codec: Option<String>)
    ensures
        is_codec(payload@, codec.deep_view()),
{
    let units = nal_units(payload);
    let mut k: usize = 0;
    while k < units.len()
        invariant
            k <= units@.len(),
            forall|j: int|
                0 <= j < units@.len() ==> unit_at(payload@, #[trigger] units@[j] - 3),
            forall|i: int, j: int| 0 <= i < j < units@.len() ==> units@[i] < units@[j],
            forall|i: int| #[trigger]
                unit_at(payload@, i) ==> exists|j: int|
                    0 <= j < units@.len() && #[trigger] units@[j] == i + 3,
            forall|j: int| 0 <= j < k ==> !sps_at(payload@, #[trigger] units@[j] - 3),
        decreases units@.len() - k,
    {
        let at: usize = units[k];
        assert(unit_at(payload@, at - 3));
        // The profile, the constraint flags and the level are the three bytes
        // straight after the unit's header.
        if payload[at] & 0x1f == 7 && payload.len() - at >= 4 {
            assert(sps_at(payload@, at - 3));
            let mut text = "avc1.".to_string();
            push_hex(&mut text, payload[at + 1]);
            push_hex(&mut text, payload[at + 2]);
            push_hex(&mut text, payload[at + 3]);
            assert(text@ == codec_at(payload@, at - 3));
            assert forall|i: int| i < at - 3 implies !sps_at(payload@, i) by {
                if unit_at(payload@, i) {
                    let j = choose|j: int| 0 <= j < units@.len() && #[trigger] units@[j] == i + 3;
                    assert(j < k);
                }
            }
            return Some(text);
        }
        k += 1;
    }
    assert forall|i: int| !(#[trigger] sps_at(payload@, i)) by {
        if unit_at(payload@, i) {
            let j = choose|j: int| 0 <= j < units@.len() && #[trigger] units@[j] == i + 3;
            assert(!sps_at(payload@, units@[j] - 3));
        }
    }
    None
}

/// An IDR picture makes a keyframe wherever it stands: its header ends in five,
/// and nothing in front of it or behind it takes that away.
pub proof fn an_idr_anywhere_makes_a_keyframe(before: Seq<u8>, header: u8, after: Seq<u8>)
    requires
        header % 32 == 5,
    ensures
        has_idr(before + seq![0u8, 0u8, 1u8, header] + after),
{
    let payload = before + seq![0u8, 0u8, 1u8, header] + after;
    let i = before.len() as int;
    assert(header & 0x1f == header % 32) by (bit_vector);
    assert(payload[i] == 0 && payload[i + 1] == 0 && payload[i + 2] == 1);
    assert(payload[i + 3] == header);
    assert(unit_at(payload, i));
}

/// Without a start code there is no keyframe and no codec: bytes of which no one
/// is a one begin no unit.
pub proof fn nothing_begins_without_a_start_code(payload: Seq<u8>)
    requires
        forall|i: int| 0 <= i < payload.len() ==> #[trigger] payload[i] != 1,
    ensures
        !has_idr(payload),
        is_codec(payload, None),
{
    assert forall|i: int| !(#[trigger] unit_at(payload, i)) by {
        if 0 <= i && i + 3 < payload.len() {
            assert(payload[i + 2] != 1);
        }
    }
}

/// A stream is configured by its own parameter set: the three bytes behind the
/// header of the first one, in the order in which they stand there.
pub proof fn a_stream_names_its_own_codec(
    before: Seq<u8>,
    header: u8,
    profile: u8,
    constraints: u8,
    level: u8,
    after: Seq<u8>,
    codec: Option<Seq<char>>,
)
    requires
        header % 32 == 7,
        forall|j: int|
            j < before.len() ==> !sps_at(
                before + seq![0u8, 0u8, 1u8, header, profile, constraints, level] + after,
                j,
            ),
        is_codec(
            before + seq![0u8, 0u8, 1u8, header, profile, constraints, level] + after,
            codec,
        ),
    ensures
        codec == Some("avc1."@ + hex(profile) + hex(constraints) + hex(level)),
{
    let payload = before + seq![0u8, 0u8, 1u8, header, profile, constraints, level] + after;
    let i = before.len() as int;
    assert(header & 0x1f == header % 32) by (bit_vector);
    assert(payload[i] == 0 && payload[i + 1] == 0 && payload[i + 2] == 1);
    assert(payload[i + 3] == header && payload[i + 4] == profile);
    assert(payload[i + 5] == constraints && payload[i + 6] == level);
    assert(unit_at(payload, i));
    assert(sps_at(payload, i));
    if let Some(text) = codec {
        let at = choose|at: int| #[trigger]
            sps_at(payload, at) && text == codec_at(payload, at) && forall|j: int|
                j < at ==> !sps_at(payload, j);
        assert(at == i);
    }
}

/// A byte is written as its two digits, the higher one first.
pub proof fn a_byte_is_two_digits(byte: u8)
    ensures
        hex(byte).len() == 2,
        hex(byte)[0] == "0123456789ABCDEF"@[byte as int / 16],
        hex(byte)[1] == "0123456789ABCDEF"@[byte as int % 16],
{
    reveal_strlit("0123456789ABCDEF");
    assert forall|value: int| 0 <= value < 16 implies #[trigger] hex_digit(value)
        == "0123456789ABCDEF"@[value] by {
    }
}

} // verus!
