//! Standard base64, which is all a `data:` URL needs.

use vstd::prelude::*;

verus! {

/// The symbol of a six-bit number.
pub open spec fn symbol(value: int) -> char {
    if value < 26 {
        ('A' as int + value) as char
    } else if value < 52 {
        ('a' as int + (value - 26)) as char
    } else if value < 62 {
        ('0' as int + (value - 52)) as char
    } else if value == 62 {
        '+'
    } else {
        '/'
    }
}

/// The six-bit number of a symbol.
pub open spec fn symbol_value(c: char) -> int {
    if 'A' <= c <= 'Z' {
        c as int - 'A' as int
    } else if 'a' <= c <= 'z' {
        c as int - 'a' as int + 26
    } else if '0' <= c <= '9' {
        c as int - '0' as int + 52
    } else if c == '+' {
        62
    } else {
        63
    }
}

/// Three bytes, those that are missing taken as zero, as four symbols, those
/// that would say nothing replaced by padding.
pub open spec fn chunk(bytes: Seq<u8>) -> Seq<char> {
    let a = bytes[0] as int;
    let b = if bytes.len() > 1 {
        bytes[1] as int
    } else {
        0
    };
    let c = if bytes.len() > 2 {
        bytes[2] as int
    } else {
        0
    };
    seq![
        symbol(a / 4),
        symbol(a % 4 * 16 + b / 16),
        if bytes.len() > 1 {
            symbol(b % 16 * 4 + c / 64)
        } else {
            '='
        },
        if bytes.len() > 2 {
            symbol(c % 64)
        } else {
            '='
        },
    ]
}

/// Bytes in base64: every three of them as four symbols.
pub open spec fn encoded(bytes: Seq<u8>) -> Seq<char>
    decreases bytes.len(),
{
    if bytes.len() == 0 {
        seq![]
    } else if bytes.len() <= 3 {
        chunk(bytes)
    } else {
        chunk(bytes.take(3)) + encoded(bytes.skip(3))
    }
}

/// The bytes that four symbols stand for.
pub open spec fn unchunk(text: Seq<char>) -> Seq<u8> {
    let a = symbol_value(text[0]);
    let b = symbol_value(text[1]);
    let first = (a * 4 + b / 16) as u8;
    if text[2] == '=' {
        seq![first]
    } else {
        let c = symbol_value(text[2]);
        let second = (b % 16 * 16 + c / 4) as u8;
        if text[3] == '=' {
            seq![first, second]
        } else {
            let d = symbol_value(text[3]);
            seq![first, second, (c % 4 * 64 + d) as u8]
        }
    }
}

/// The bytes that a base64 text stands for.
pub open spec fn decoded(text: Seq<char>) -> Seq<u8>
    decreases text.len(),
{
    if text.len() < 4 {
        seq![]
    } else {
        unchunk(text.take(4)) + decoded(text.skip(4))
    }
}

/// The symbol of a six-bit number.
fn symbol_of(value: u8) -> (c: char)
    requires
        value < 64,
    ensures
        c == symbol(value as int),
{
    if value < 26 {
        (65u8 + value) as char
    } else if value < 52 {
        (97u8 + (value - 26)) as char
    } else if value < 62 {
        (48u8 + (value - 52)) as char
    } else if value == 62 {
        '+'
    } else {
        '/'
    }
}

/// Bytes in standard base64.
pub fn base64(bytes: &[u8]) -> (text: String)
    ensures
        text@ == encoded(bytes@),
{
    let mut text = String::new();
    let n: usize = bytes.len();
    let mut i: usize = 0;
    proof {
        assert(bytes@.skip(0) =~= bytes@);
        assert(text@ + encoded(bytes@) =~= encoded(bytes@));
    }
    while i < n
        invariant
            n == bytes@.len(),
            i <= n,
            text@ + encoded(bytes@.skip(i as int)) == encoded(bytes@),
        decreases n - i,
    {
        let ghost rest = bytes@.skip(i as int);
        let ghost before = text@;
        let a: u8 = bytes[i];
        let b: u8 = if n - i > 1 {
            bytes[i + 1]
        } else {
            0
        };
        let c: u8 = if n - i > 2 {
            bytes[i + 2]
        } else {
            0
        };
        text.push(symbol_of(a / 4));
        text.push(symbol_of(a % 4 * 16 + b / 16));
        if n - i > 1 {
            text.push(symbol_of(b % 16 * 4 + c / 64));
        } else {
            text.push('=');
        }
        if n - i > 2 {
            text.push(symbol_of(c % 64));
        } else {
            text.push('=');
        }
        proof {
            let here = if rest.len() <= 3 {
                rest
            } else {
                rest.take(3)
            };
            assert(text@ =~= before + chunk(here));
            if rest.len() > 3 {
                assert(rest.skip(3) =~= bytes@.skip(i + 3));
                assert(before + (chunk(here) + encoded(rest.skip(3))) =~= text@ + encoded(
                    rest.skip(3),
                ));
            } else {
                assert(text@ + Seq::<char>::empty() =~= text@);
            }
        }
        if n - i > 3 {
            i = i + 3;
        } else {
            i = n;
            assert(bytes@.skip(i as int) =~= Seq::<u8>::empty());
        }
    }
    assert(bytes@.skip(i as int) =~= Seq::<u8>::empty());
    assert(text@ + Seq::<char>::empty() =~= text@);
    text
}

proof fn symbols_stand_for_themselves(value: int)
    requires
        0 <= value < 64,
    ensures
        symbol_value(symbol(value)) == value,
        symbol(value) != '=',
{
}

proof fn chunk_reads_back(bytes: Seq<u8>)
    requires
        1 <= bytes.len() <= 3,
    ensures
        unchunk(chunk(bytes)) == bytes,
{
    let a = bytes[0] as int;
    let b = if bytes.len() > 1 {
        bytes[1] as int
    } else {
        0
    };
    let c = if bytes.len() > 2 {
        bytes[2] as int
    } else {
        0
    };
    symbols_stand_for_themselves(a / 4);
    symbols_stand_for_themselves(a % 4 * 16 + b / 16);
    symbols_stand_for_themselves(b % 16 * 4 + c / 64);
    symbols_stand_for_themselves(c % 64);
    assert((a % 4 * 16 + b / 16) / 16 == a % 4);
    assert((a % 4 * 16 + b / 16) % 16 == b / 16);
    assert((b % 16 * 4 + c / 64) / 4 == b % 16);
    assert((b % 16 * 4 + c / 64) % 4 == c / 64);
    assert(unchunk(chunk(bytes)) =~= bytes);
}

/// What was encoded is decoded as it was, so no icon is changed on its way; and
/// every three bytes take four symbols, the last of them padded.
pub proof fn base64_reads_back(bytes: Seq<u8>)
    ensures
        decoded(encoded(bytes)) == bytes,
        encoded(bytes).len() == (bytes.len() + 2) / 3 * 4,
    decreases bytes.len(),
{
    if bytes.len() == 0 {
        assert(decoded(encoded(bytes)) =~= bytes);
    } else if bytes.len() <= 3 {
        chunk_reads_back(bytes);
        reveal_with_fuel(decoded, 2);
        assert(chunk(bytes).take(4) =~= chunk(bytes));
        assert(decoded(encoded(bytes)) =~= bytes);
    } else {
        let head = bytes.take(3);
        chunk_reads_back(head);
        base64_reads_back(bytes.skip(3));
        let text = encoded(bytes);
        assert(text.take(4) =~= chunk(head));
        assert(text.skip(4) =~= encoded(bytes.skip(3)));
        assert(decoded(text) =~= bytes);
    }
}

/// The symbols stand in the usual order: the capitals, the small letters, the
/// digits, and then a plus and a slash.
pub proof fn symbols_stand_in_order(value: int)
    ensures
        symbol(0) == 'A' && symbol(26) == 'a' && symbol(52) == '0' && symbol(62) == '+' && symbol(
            63,
        ) == '/',
        0 <= value < 61 && value != 25 && value != 51 ==> symbol(value + 1) as int == symbol(value)
            as int + 1,
{
}

} // verus!
