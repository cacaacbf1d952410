//! Text, character by character.

use vstd::prelude::*;

verus! {

/// `String::push`: the character goes at the end.
pub assume_specification[ String::push ](text: &mut String, c: char)
    ensures
        final(text)@ == old(text)@.push(c),
;

/// What `str::to_lowercase` makes of a text.
pub uninterp spec fn lowercase(text: Seq<char>) -> Seq<char>;

/// `str::to_lowercase`: the lowercase equivalent, by Unicode's own rules.
#[verifier::external_body]
pub(crate) fn to_lowercase(text: &str) -> (lower: String)
    ensures
        lower@ == lowercase(text@),
{
    text.to_lowercase()
}

/// What `char::to_uppercase` makes of a character.
pub uninterp spec fn uppercase(c: char) -> Seq<char>;

/// `char::to_uppercase`: the upper-case equivalent, by Unicode's own rules, which
/// may be more than one character.
#[verifier::external_body]
pub(crate) fn upper_of(c: char) -> (upper: String)
    ensures
        upper@ == uppercase(c),
{
    c.to_uppercase().to_string()
}

/// The characters of a text.
pub(crate) fn chars_of(text: &str) -> (chars: Vec<char>)
    ensures
        chars@ == text@,
{
    let mut chars: Vec<char> = Vec::new();
    let n: usize = text.unicode_len();
    let mut rest = text.chars();
    let mut i: usize = 0;
    while i < n
        invariant
            i <= n,
            n == text@.len(),
            vstd::std_specs::iter::IteratorSpec::obeys_prophetic_iter_laws(&rest),
            vstd::std_specs::iter::IteratorSpec::remaining(&rest) == text@.skip(i as int),
            chars@ == text@.take(i as int),
        decreases n - i,
    {
        match rest.next() {
            Some(c) => {
                chars.push(c);
                assert(text@.take(i + 1) =~= text@.take(i as int).push(c));
                assert(text@.skip(i as int).drop_first() =~= text@.skip(i + 1));
            },
            None => {},
        }
        i = i + 1;
    }
    assert(text@.take(n as int) =~= text@);
    chars
}

/// A text made of these characters.
pub(crate) fn text_of(chars: &[char]) -> (text: String)
    ensures
        text@ == chars@,
{
    let mut text = String::new();
    let mut i: usize = 0;
    while i < chars.len()
        invariant
            i <= chars@.len(),
            text@ =~= chars@.take(i as int),
        decreases chars@.len() - i,
    {
        text.push(chars[i]);
        i = i + 1;
    }
    assert(chars@.take(i as int) =~= chars@);
    text
}

/// The part of a list of characters from `start` to `end`, as a text.
pub(crate) fn slice_of(chars: &Vec<char>, start: usize, end: usize) -> (text: String)
    requires
        start <= end <= chars@.len(),
    ensures
        text@ == chars@.subrange(start as int, end as int),
{
    text_of(vstd::slice::slice_subrange(chars.as_slice(), start, end))
}

/// Whether two texts are the same.
pub(crate) fn same(one: &str, other: &str) -> (equal: bool)
    ensures
        equal == (one@ == other@),
{
    let a = chars_of(one);
    let b = chars_of(other);
    if a.len() != b.len() {
        return false;
    }
    let mut i: usize = 0;
    while i < a.len()
        invariant
            i <= a@.len(),
            a@ == one@,
            b@ == other@,
            a@.len() == b@.len(),
            forall|j: int| 0 <= j < i ==> a@[j] == b@[j],
        decreases a@.len() - i,
    {
        if a[i] != b[i] {
            return false;
        }
        i = i + 1;
    }
    assert(a@ =~= b@);
    true
}

/// Unicode's `White_Space` property.
pub open spec fn white(c: char) -> bool {
    ||| '\u{9}' <= c <= '\u{d}'
    ||| c == ' '
    ||| c == '\u{85}'
    ||| c == '\u{a0}'
    ||| c == '\u{1680}'
    ||| '\u{2000}' <= c <= '\u{200a}'
    ||| c == '\u{2028}'
    ||| c == '\u{2029}'
    ||| c == '\u{202f}'
    ||| c == '\u{205f}'
    ||| c == '\u{3000}'
}

/// Whether a character is white space.
pub(crate) fn is_white(c: char) -> (result: bool)
    ensures
        result == white(c),
{
    ('\u{9}' <= c && c <= '\u{d}') || c == ' ' || c == '\u{85}' || c == '\u{a0}' || c == '\u{1680}'
        || ('\u{2000}' <= c && c <= '\u{200a}') || c == '\u{2028}' || c == '\u{2029}' || c
        == '\u{202f}' || c == '\u{205f}' || c == '\u{3000}'
}

/// A text without the characters at its beginning that `drop` holds of.
pub open spec fn skip_while(text: Seq<char>, drop: spec_fn(char) -> bool) -> Seq<char>
    decreases text.len(),
{
    if text.len() > 0 && drop(text[0]) {
        skip_while(text.drop_first(), drop)
    } else {
        text
    }
}

/// A text without the characters at its end that `drop` holds of.
pub open spec fn cut_while(text: Seq<char>, drop: spec_fn(char) -> bool) -> Seq<char>
    decreases text.len(),
{
    if text.len() > 0 && drop(text.last()) {
        cut_while(text.drop_last(), drop)
    } else {
        text
    }
}

/// A text without the white space round it.
pub open spec fn trimmed(text: Seq<char>) -> Seq<char> {
    let drop = |c: char| white(c);
    cut_while(skip_while(text, drop), drop)
}

/// A text without the white space round it.
pub(crate) fn trim(text: &str) -> (result: String)
    ensures
        result@ == trimmed(text@),
{
    let chars = chars_of(text);
    let ghost drop = |c: char| white(c);
    let mut start: usize = 0;
    assert(text@.skip(0) =~= text@);
    while start < chars.len() && is_white(chars[start])
        invariant
            start <= chars@.len(),
            chars@ == text@,
            drop == (|c: char| white(c)),
            skip_while(text@, drop) == skip_while(text@.skip(start as int), drop),
        decreases chars@.len() - start,
    {
        assert(text@.skip(start as int).drop_first() =~= text@.skip(start + 1));
        start = start + 1;
    }
    let ghost front = text@.skip(start as int);
    let mut end: usize = chars.len();
    assert(text@.subrange(start as int, end as int) =~= front);
    while end > start && is_white(chars[end - 1])
        invariant
            start <= end <= chars@.len(),
            chars@ == text@,
            drop == (|c: char| white(c)),
            cut_while(front, drop) == cut_while(text@.subrange(start as int, end as int), drop),
        decreases end - start,
    {
        assert(text@.subrange(start as int, end as int).drop_last() =~= text@.subrange(
            start as int,
            end - 1,
        ));
        end = end - 1;
    }
    slice_of(&chars, start, end)
}

/// Where a character first occurs, from `from` on; the length where it does not.
pub open spec fn first_at(text: Seq<char>, c: char, from: int) -> int
    decreases text.len() - from,
{
    if from < 0 || from >= text.len() {
        text.len() as int
    } else if text[from] == c {
        from
    } else {
        first_at(text, c, from + 1)
    }
}

pub(crate) proof fn first_at_bounds(text: Seq<char>, c: char, from: int)
    requires
        0 <= from <= text.len(),
    ensures
        from <= first_at(text, c, from) <= text.len(),
        first_at(text, c, from) < text.len() ==> text[first_at(text, c, from)] == c,
        forall|i: int| from <= i < first_at(text, c, from) ==> text[i] != c,
    decreases text.len() - from,
{
    if from < text.len() && text[from] != c {
        first_at_bounds(text, c, from + 1);
    }
}

/// A character that occurs is found no later.
pub proof fn first_at_found(text: Seq<char>, c: char, from: int, at: int)
    requires
        0 <= from <= at < text.len(),
        text[at] == c,
    ensures
        first_at(text, c, from) <= at,
    decreases text.len() - from,
{
    if text[from] != c {
        first_at_found(text, c, from + 1, at);
    }
}

/// Where a character first occurs, from `from` on; the length where it does not.
pub(crate) fn find(chars: &Vec<char>, c: char, from: usize) -> (at: usize)
    requires
        from <= chars@.len(),
    ensures
        at == first_at(chars@, c, from as int),
        from <= at <= chars@.len(),
        at < chars@.len() ==> chars@[at as int] == c,
{
    let mut at: usize = from;
    while at < chars.len() && chars[at] != c
        invariant
            from <= at <= chars@.len(),
            first_at(chars@, c, from as int) == first_at(chars@, c, at as int),
        decreases chars@.len() - at,
    {
        at = at + 1;
    }
    at
}

/// A text in two, at the first of a character, which belongs to neither.
pub open spec fn split_at_first(text: Seq<char>, c: char) -> Option<(Seq<char>, Seq<char>)> {
    let at = first_at(text, c, 0);
    if at < text.len() {
        Some((text.take(at), text.skip(at + 1)))
    } else {
        None
    }
}

/// A text in two, at the first of a character.
pub(crate) fn split_once(text: &str, c: char) -> (parts: Option<(String, String)>)
    ensures
        parts.deep_view() == split_at_first(text@, c),
{
    let chars = chars_of(text);
    let at: usize = find(&chars, c, 0);
    if at < chars.len() {
        let left = slice_of(&chars, 0, at);
        let right = slice_of(&chars, at + 1, chars.len());
        assert(left@ =~= text@.take(at as int));
        assert(right@ =~= text@.skip(at + 1));
        Some((left, right))
    } else {
        None
    }
}

/// Whether a text begins with another.
pub open spec fn begins_with(text: Seq<char>, prefix: Seq<char>) -> bool {
    prefix.len() <= text.len() && text.take(prefix.len() as int) == prefix
}

/// Whether `pattern` stands in `chars` at `at`.
pub(crate) fn stands_at(chars: &Vec<char>, pattern: &Vec<char>, at: usize) -> (found: bool)
    requires
        at <= chars@.len(),
    ensures
        found == begins_with(chars@.skip(at as int), pattern@),
{
    if chars.len() - at < pattern.len() {
        return false;
    }
    let ghost part = chars@.skip(at as int).take(pattern@.len() as int);
    let mut i: usize = 0;
    while i < pattern.len()
        invariant
            at + pattern@.len() <= chars@.len(),
            chars.len() == chars@.len(),
            i <= pattern@.len(),
            part == chars@.skip(at as int).take(pattern@.len() as int),
            forall|j: int| 0 <= j < i ==> part[j] == pattern@[j],
        decreases pattern@.len() - i,
    {
        assert(part[i as int] == chars@[at + i]);
        if chars[at + i] != pattern[i] {
            return false;
        }
        i = i + 1;
    }
    assert(part =~= pattern@);
    true
}

/// What is left of a text after a prefix it begins with.
pub(crate) fn strip_prefix(text: &str, prefix: &str) -> (rest: Option<String>)
    ensures
        rest.deep_view() == (if begins_with(text@, prefix@) {
            Some(text@.skip(prefix@.len() as int))
        } else {
            None
        }),
{
    let chars = chars_of(text);
    let pattern = chars_of(prefix);
    assert(chars@.skip(0) =~= chars@);
    if stands_at(&chars, &pattern, 0) {
        let rest = slice_of(&chars, pattern.len(), chars.len());
        assert(rest@ =~= text@.skip(prefix@.len() as int));
        Some(rest)
    } else {
        None
    }
}

/// Whether a text holds another somewhere.
pub open spec fn holds(text: Seq<char>, pattern: Seq<char>) -> bool {
    exists|i: int| 0 <= i <= text.len() && #[trigger] begins_with(text.skip(i), pattern)
}

/// Where a pattern first stands in a text.
pub open spec fn is_first_place(text: Seq<char>, pattern: Seq<char>, at: int) -> bool {
    &&& 0 <= at <= text.len()
    &&& begins_with(text.skip(at), pattern)
    &&& forall|i: int| 0 <= i < at ==> !(#[trigger] begins_with(text.skip(i), pattern))
}

/// Where a pattern first stands in a text.
pub(crate) fn find_text(chars: &Vec<char>, pattern: &Vec<char>) -> (at: Option<usize>)
    ensures
        match at {
            Some(i) => is_first_place(chars@, pattern@, i as int) && i + pattern@.len()
                <= chars@.len() && holds(chars@, pattern@),
            None => !holds(chars@, pattern@),
        },
{
    let mut at: usize = 0;
    loop
        invariant
            at <= chars@.len(),
            forall|i: int| 0 <= i < at ==> !(#[trigger] begins_with(chars@.skip(i), pattern@)),
        decreases chars@.len() - at,
    {
        if stands_at(chars, pattern, at) {
            return Some(at);
        }
        if at == chars.len() {
            return None;
        }
        at = at + 1;
    }
}

/// Whether a text holds another somewhere.
pub(crate) fn contains_text(text: &str, pattern: &str) -> (found: bool)
    ensures
        found == holds(text@, pattern@),
{
    let chars = chars_of(text);
    let wanted = chars_of(pattern);
    find_text(&chars, &wanted).is_some()
}

/// A decimal digit's value.
pub open spec fn digit(c: char) -> int {
    c as int - '0' as int
}

/// Whether a text is decimal digits and nothing else, at least one of them.
pub open spec fn is_decimal(text: Seq<char>) -> bool {
    &&& text.len() > 0
    &&& forall|i: int| 0 <= i < text.len() ==> '0' <= #[trigger] text[i] <= '9'
}

/// The number that decimal digits stand for.
pub open spec fn decimal_value(text: Seq<char>) -> int
    decreases text.len(),
{
    if text.len() == 0 {
        0
    } else {
        decimal_value(text.drop_last()) * 10 + digit(text.last())
    }
}

/// The number a text stands for, where it is an unsigned number up to `limit`: a
/// plus sign at most, then decimal digits.
pub open spec fn unsigned(text: Seq<char>, limit: int) -> Option<int> {
    let digits = if text.len() > 0 && text[0] == '+' {
        text.drop_first()
    } else {
        text
    };
    if is_decimal(digits) && decimal_value(digits) <= limit {
        Some(decimal_value(digits))
    } else {
        None
    }
}

/// The number a text stands for, where it is a signed number from `-limit - 1`
/// to `limit`.
pub open spec fn signed(text: Seq<char>, limit: int) -> Option<int> {
    if text.len() > 0 && text[0] == '-' {
        let digits = text.drop_first();
        if is_decimal(digits) && decimal_value(digits) <= limit + 1 {
            Some(-decimal_value(digits))
        } else {
            None
        }
    } else {
        unsigned(text, limit)
    }
}

proof fn decimal_grows(text: Seq<char>, n: int)
    requires
        is_decimal(text),
        0 <= n <= text.len(),
    ensures
        0 <= decimal_value(text.take(n)) <= decimal_value(text),
    decreases text.len() - n,
{
    if n < text.len() {
        decimal_grows(text, n + 1);
        assert(text.take(n + 1).drop_last() =~= text.take(n));
        decimal_is_natural(text.take(n));
    } else {
        assert(text.take(n) =~= text);
        decimal_is_natural(text);
    }
}

proof fn decimal_is_natural(text: Seq<char>)
    requires
        forall|i: int| 0 <= i < text.len() ==> '0' <= #[trigger] text[i] <= '9',
    ensures
        0 <= decimal_value(text),
    decreases text.len(),
{
    if text.len() > 0 {
        let front = text.drop_last();
        assert forall|i: int| 0 <= i < front.len() implies '0' <= #[trigger] front[i] <= '9' by {
            assert(front[i] == text[i]);
        }
        decimal_is_natural(front);
    }
}

/// The number that the digits from `from` on stand for, up to `limit`.
fn parse_digits(chars: &Vec<char>, from: usize, limit: u64) -> (value: Option<u64>)
    requires
        from <= chars@.len(),
    ensures
        ({
            let digits = chars@.skip(from as int);
            match value {
                Some(v) => is_decimal(digits) && decimal_value(digits) == v && v <= limit,
                None => !(is_decimal(digits) && decimal_value(digits) <= limit),
            }
        }),
{
    let ghost digits = chars@.skip(from as int);
    if from == chars.len() {
        return None;
    }
    let mut value: u64 = 0;
    let mut i: usize = from;
    while i < chars.len()
        invariant
            from <= i <= chars@.len(),
            digits == chars@.skip(from as int),
            value <= limit,
            value == decimal_value(digits.take(i - from)),
            forall|j: int| 0 <= j < i - from ==> '0' <= #[trigger] digits[j] <= '9',
        decreases chars@.len() - i,
    {
        let c = chars[i];
        assert(digits[i - from] == c);
        if c < '0' || c > '9' {
            return None;
        }
        let d: u64 = (c as u32 - '0' as u32) as u64;
        let wide: u128 = value as u128 * 10 + d as u128;
        proof {
            assert(digits.take(i + 1 - from).drop_last() =~= digits.take(i - from));
            assert(wide == decimal_value(digits.take(i + 1 - from)));
        }
        if wide > limit as u128 {
            proof {
                if is_decimal(digits) {
                    decimal_grows(digits, i + 1 - from);
                }
            }
            return None;
        }
        value = wide as u64;
        i = i + 1;
    }
    assert(digits.take(i - from) =~= digits);
    Some(value)
}

/// The number a text stands for, where it is an unsigned number up to `limit`.
pub(crate) fn parse_unsigned(text: &str, limit: u64) -> (value: Option<u64>)
    ensures
        match value {
            Some(v) => unsigned(text@, limit as int) == Some(v as int),
            None => unsigned(text@, limit as int) is None,
        },
{
    let chars = chars_of(text);
    let from: usize = if chars.len() > 0 && chars[0] == '+' {
        1
    } else {
        0
    };
    proof {
        assert(chars@.skip(0) =~= chars@);
        if chars@.len() > 0 {
            assert(chars@.skip(1) =~= chars@.drop_first());
        }
    }
    parse_digits(&chars, from, limit)
}

/// The number a text stands for, where it is an `i32`.
pub(crate) fn parse_i32(text: &str) -> (value: Option<i32>)
    ensures
        match value {
            Some(v) => signed(text@, i32::MAX as int) == Some(v as int),
            None => signed(text@, i32::MAX as int) is None,
        },
{
    let chars = chars_of(text);
    if chars.len() > 0 && chars[0] == '-' {
        assert(chars@.skip(1) =~= chars@.drop_first());
        match parse_digits(&chars, 1, 0x8000_0000) {
            Some(value) => Some((-(value as i64)) as i32),
            None => None,
        }
    } else {
        match parse_unsigned(text, 0x7fff_ffff) {
            Some(value) => Some(value as i32),
            None => None,
        }
    }
}

/// The decimal digits of a number.
pub open spec fn decimal(value: nat) -> Seq<char>
    decreases value,
{
    if value < 10 {
        seq![(value + '0' as nat) as char]
    } else {
        decimal(value / 10).push((value % 10 + '0' as nat) as char)
    }
}

/// The decimal digits of a number.
pub(crate) fn format_decimal(value: u64) -> (text: String)
    ensures
        text@ == decimal(value as nat),
    decreases value,
{
    let last: char = (48u8 + (value % 10) as u8) as char;
    let mut text = if value < 10 {
        String::new()
    } else {
        format_decimal(value / 10)
    };
    text.push(last);
    assert(text@ =~= decimal(value as nat));
    text
}

/// What is written in decimal is read back as the same number.
pub proof fn decimal_reads_back(value: nat)
    ensures
        is_decimal(decimal(value)),
        decimal_value(decimal(value)) == value,
    decreases value,
{
    if value < 10 {
        assert(decimal(value).drop_last() =~= Seq::<char>::empty());
        assert(decimal_value(Seq::<char>::empty()) == 0);
        assert(digit(decimal(value).last()) == value);
    } else {
        decimal_reads_back(value / 10);
        assert(decimal(value).drop_last() =~= decimal(value / 10));
        assert(digit(decimal(value).last()) == value % 10);
    }
}

/// A line without the carriage return at its end.
pub open spec fn without_return(line: Seq<char>) -> Seq<char> {
    if line.len() > 0 && line.last() == '\r' {
        line.drop_last()
    } else {
        line
    }
}

/// The lines of a text. A line ends with a line feed or a carriage return and a
/// line feed, which are not part of it; the last line may go without.
pub open spec fn lines(text: Seq<char>) -> Seq<Seq<char>>
    decreases text.len(),
{
    if text.len() == 0 {
        seq![]
    } else {
        let at = first_at(text, '\n', 0);
        if 0 <= at < text.len() {
            seq![without_return(text.take(at))] + lines(text.skip(at + 1))
        } else {
            seq![text]
        }
    }
}

/// Where a character first occurs does not depend on what comes before the place
/// the search starts from.
proof fn first_at_shifts(text: Seq<char>, c: char, start: int, from: int)
    requires
        0 <= start <= from <= text.len(),
    ensures
        first_at(text, c, from) == start + first_at(text.skip(start), c, from - start),
    decreases text.len() - from,
{
    if from < text.len() && text[from] != c {
        first_at_shifts(text, c, start, from + 1);
    }
}

/// The lines of a text.
pub(crate) fn lines_of(text: &str) -> (list: Vec<String>)
    ensures
        list.deep_view() == lines(text@),
{
    let chars = chars_of(text);
    let mut list: Vec<String> = Vec::new();
    let mut from: usize = 0;
    proof {
        assert(text@.skip(0) =~= text@);
        assert(list.deep_view() + lines(text@) =~= lines(text@));
    }
    while from < chars.len()
        invariant
            from <= chars@.len(),
            chars@ == text@,
            list.deep_view() + lines(text@.skip(from as int)) == lines(text@),
        decreases chars@.len() - from,
    {
        let ghost rest = text@.skip(from as int);
        let ghost before = list.deep_view();
        let at: usize = find(&chars, '\n', from);
        proof {
            first_at_shifts(text@, '\n', from as int, from as int);
        }
        let mut end: usize = at;
        if at < chars.len() && end > from && chars[end - 1] == '\r' {
            end = end - 1;
        }
        let line = slice_of(&chars, from, end);
        let ghost shown = line@;
        list.push(line);
        proof {
            assert(list.deep_view() =~= before.push(shown));
            if at < chars@.len() {
                assert(rest.skip(at - from + 1) =~= text@.skip(at + 1));
                assert(shown =~= without_return(rest.take(at - from)));
                assert(before.push(shown) + lines(text@.skip(at + 1)) =~= before + (seq![shown]
                    + lines(text@.skip(at + 1))));
            } else {
                assert(shown =~= rest);
                assert(before.push(shown) + Seq::<Seq<char>>::empty() =~= before + seq![shown]);
                assert(text@.skip(at as int) =~= Seq::<char>::empty());
            }
        }
        if at == chars.len() {
            from = at;
        } else {
            from = at + 1;
        }
    }
    proof {
        assert(text@.skip(from as int) =~= Seq::<char>::empty());
        assert(list.deep_view() + Seq::<Seq<char>>::empty() =~= list.deep_view());
    }
    list
}

/// The number a text stands for, where it is an `i64`.
pub(crate) fn parse_i64(text: &str) -> (value: Option<i64>)
    ensures
        match value {
            Some(v) => signed(text@, i64::MAX as int) == Some(v as int),
            None => signed(text@, i64::MAX as int) is None,
        },
{
    let chars = chars_of(text);
    if chars.len() > 0 && chars[0] == '-' {
        assert(chars@.skip(1) =~= chars@.drop_first());
        match parse_digits(&chars, 1, 0x8000_0000_0000_0000) {
            Some(value) => Some((-(value as i128)) as i64),
            None => None,
        }
    } else {
        match parse_unsigned(text, 0x7fff_ffff_ffff_ffff) {
            Some(value) => Some(value as i64),
            None => None,
        }
    }
}

/// An ASCII letter's upper-case form; any other character is its own.
pub open spec fn upper_letter(c: char) -> char {
    if 'a' <= c <= 'z' {
        (c as int - 32) as char
    } else {
        c
    }
}

/// A text with its ASCII letters in upper case.
pub open spec fn uppered(text: Seq<char>) -> Seq<char> {
    text.map_values(|c: char| upper_letter(c))
}

/// A text with its ASCII letters in upper case.
pub(crate) fn ascii_upper(text: &str) -> (upper: String)
    ensures
        upper@ == uppered(text@),
{
    let chars = chars_of(text);
    let mut upper = String::new();
    let mut i: usize = 0;
    while i < chars.len()
        invariant
            i <= chars@.len(),
            chars@ == text@,
            upper@ =~= uppered(text@).take(i as int),
        decreases chars@.len() - i,
    {
        let c = chars[i];
        let raised: char = if 'a' <= c && c <= 'z' {
            ((c as u32 - 32) as u8) as char
        } else {
            c
        };
        upper.push(raised);
        i += 1;
    }
    assert(upper@ =~= uppered(text@));
    upper
}

/// Whether one text comes before another, or is the same: character by character.
pub open spec fn comes_first(one: Seq<char>, other: Seq<char>) -> bool
    decreases one.len(),
{
    if one.len() == 0 {
        true
    } else if other.len() == 0 {
        false
    } else if one[0] == other[0] {
        comes_first(one.drop_first(), other.drop_first())
    } else {
        one[0] < other[0]
    }
}

/// Whether one text comes before another, or is the same.
pub(crate) fn is_in_order(one: &str, other: &str) -> (ordered: bool)
    ensures
        ordered == comes_first(one@, other@),
{
    let a = chars_of(one);
    let b = chars_of(other);
    let mut i: usize = 0;
    proof {
        assert(one@.skip(0) =~= one@);
        assert(other@.skip(0) =~= other@);
    }
    loop
        invariant
            a@ == one@,
            b@ == other@,
            i <= a@.len(),
            i <= b@.len(),
            comes_first(one@, other@) == comes_first(one@.skip(i as int), other@.skip(i as int)),
        decreases a@.len() - i,
    {
        if i == a.len() {
            return true;
        }
        if i == b.len() {
            return false;
        }
        if a[i] != b[i] {
            return a[i] < b[i];
        }
        proof {
            assert(one@.skip(i as int).drop_first() =~= one@.skip(i + 1));
            assert(other@.skip(i as int).drop_first() =~= other@.skip(i + 1));
        }
        i = i + 1;
    }
}

/// Of any two texts one comes first.
pub proof fn order_is_total(one: Seq<char>, other: Seq<char>)
    ensures
        comes_first(one, other) || comes_first(other, one),
    decreases one.len(),
{
    if one.len() > 0 && other.len() > 0 && one[0] == other[0] {
        order_is_total(one.drop_first(), other.drop_first());
    }
}

/// A text that comes before one that comes before a third comes before that one.
pub proof fn order_is_transitive(a: Seq<char>, b: Seq<char>, c: Seq<char>)
    requires
        comes_first(a, b),
        comes_first(b, c),
    ensures
        comes_first(a, c),
    decreases a.len(),
{
    if a.len() > 0 && b.len() > 0 && c.len() > 0 && a[0] == b[0] && b[0] == c[0] {
        order_is_transitive(a.drop_first(), b.drop_first(), c.drop_first());
    }
}

/// Two texts that each come before the other are the same.
pub proof fn order_is_antisymmetric(one: Seq<char>, other: Seq<char>)
    requires
        comes_first(one, other),
        comes_first(other, one),
    ensures
        one == other,
    decreases one.len(),
{
    if one.len() == 0 || other.len() == 0 {
        assert(one =~= other);
    } else {
        order_is_antisymmetric(one.drop_first(), other.drop_first());
        assert(one =~= seq![one[0]] + one.drop_first());
        assert(other =~= seq![other[0]] + other.drop_first());
    }
}

proof fn skipped(text: Seq<char>, drop: spec_fn(char) -> bool) -> (from: int)
    ensures
        0 <= from <= text.len(),
        skip_while(text, drop) == text.skip(from),
        forall|i: int| 0 <= i < from ==> drop(#[trigger] text[i]),
        from < text.len() ==> !drop(text[from]),
    decreases text.len(),
{
    if text.len() > 0 && drop(text[0]) {
        let rest = text.drop_first();
        let from = skipped(rest, drop);
        assert(rest.skip(from) =~= text.skip(from + 1));
        assert forall|i: int| 0 <= i < from + 1 implies drop(#[trigger] text[i]) by {
            if i > 0 {
                assert(rest[i - 1] == text[i]);
            }
        }
        if from < rest.len() {
            assert(rest[from] == text[from + 1]);
        }
        from + 1
    } else {
        assert(text.skip(0) =~= text);
        0
    }
}

proof fn cut(text: Seq<char>, drop: spec_fn(char) -> bool) -> (to: int)
    ensures
        0 <= to <= text.len(),
        cut_while(text, drop) == text.take(to),
        forall|i: int| to <= i < text.len() ==> drop(#[trigger] text[i]),
        to > 0 ==> !drop(text[to - 1]),
    decreases text.len(),
{
    if text.len() > 0 && drop(text.last()) {
        let rest = text.drop_last();
        let to = cut(rest, drop);
        assert(rest.take(to) =~= text.take(to));
        assert forall|i: int| to <= i < text.len() implies drop(#[trigger] text[i]) by {
            if i < rest.len() {
                assert(rest[i] == text[i]);
            }
        }
        to
    } else {
        assert(text.take(text.len() as int) =~= text);
        text.len() as int
    }
}

/// Is one text the other without the white space round it: all that was taken
/// off, at either end, is white, and what is left neither begins nor ends white?
pub open spec fn is_core(text: Seq<char>, core: Seq<char>) -> bool {
    exists|from: int|
        {
            &&& 0 <= from
            &&& from + core.len() <= text.len()
            &&& core == #[trigger] text.subrange(from, from + core.len())
            &&& forall|i: int|
                0 <= i < text.len() && !(from <= i < from + core.len()) ==> white(
                    #[trigger] text[i],
                )
            &&& core.len() > 0 ==> !white(core[0]) && !white(core.last())
        }
}

/// Trimming takes off the white space round a text, all of it and nothing else.
pub proof fn trimming_takes_off_the_white_space(text: Seq<char>)
    ensures
        is_core(text, trimmed(text)),
{
    let drop = |c: char| white(c);
    let from = skipped(text, drop);
    let rest = text.skip(from);
    let to = cut(rest, drop);
    let core = trimmed(text);
    assert(core == rest.take(to));
    assert(core =~= text.subrange(from, from + core.len()));
    assert forall|i: int|
        0 <= i < text.len() && !(from <= i < from + core.len()) implies white(
        #[trigger] text[i],
    ) by {
        if i < from {
            assert(drop(text[i]));
        } else {
            assert(rest[i - from] == text[i]);
            assert(drop(rest[i - from]));
        }
    }
    if core.len() > 0 {
        assert(core[0] == text[from]);
        assert(!drop(text[from]));
        assert(core.last() == rest[to - 1]);
        assert(!drop(rest[to - 1]));
    }
}

/// A text splits at the first of a character: the parts with that character
/// between them are the text again, and the first part does not hold it. Without
/// the character there is nothing to split at.
pub proof fn a_text_splits_at_the_first(
    text: Seq<char>,
    c: char,
    left: Seq<char>,
    right: Seq<char>,
)
    ensures
        split_at_first(text, c) == Some((left, right)) <==> text == left.push(c) + right
            && !left.contains(c),
        split_at_first(text, c) is None <==> !text.contains(c),
{
    first_at_bounds(text, c, 0);
    let at = first_at(text, c, 0);
    if at < text.len() {
        assert(text =~= text.take(at).push(c) + text.skip(at + 1));
        assert(text.contains(text[at]));
        if text.take(at).contains(c) {
            let k = choose|k: int| 0 <= k < at && text.take(at)[k] == c;
            assert(text[k] == c);
        }
    }
    if text == left.push(c) + right && !left.contains(c) {
        let n = left.len() as int;
        assert(text[n] == c);
        first_at_found(text, c, 0, n);
        if at < n {
            assert(left[at] == text[at]);
            assert(left.contains(c));
        }
        assert(at == n);
        assert(text.take(at) =~= left);
        assert(text.skip(at + 1) =~= right);
    }
    if text.contains(c) {
        let k = choose|k: int| 0 <= k < text.len() && text[k] == c;
        first_at_found(text, c, 0, k);
    }
}

/// A line feed ends a line, which holds everything before it but a carriage
/// return at the end; what follows are the lines of the rest. A text without a
/// line feed is one line, and the empty text has none.
pub proof fn a_line_feed_ends_a_line(line: Seq<char>, rest: Seq<char>)
    requires
        !line.contains('\n'),
    ensures
        lines(line.push('\n') + rest) == seq![without_return(line)] + lines(rest),
        line.len() > 0 ==> lines(line) == seq![line],
        lines(Seq::empty()).len() == 0,
        line.len() > 0 && line.last() == '\r' ==> without_return(line).push('\r') == line,
        line.len() == 0 || line.last() != '\r' ==> without_return(line) == line,
{
    let text = line.push('\n') + rest;
    a_text_splits_at_the_first(text, '\n', line, rest);
    let at = first_at(text, '\n', 0);
    first_at_bounds(text, '\n', 0);
    assert(split_at_first(text, '\n') == Some((line, rest)));
    assert(text.take(at) == line && text.skip(at + 1) == rest);
    first_at_bounds(line, '\n', 0);
    if first_at(line, '\n', 0) < line.len() {
        assert(line.contains(line[first_at(line, '\n', 0)]));
    }
    if line.len() > 0 && line.last() == '\r' {
        assert(line.drop_last().push('\r') =~= line);
    }
}

/// Texts are ordered by the first character in which they differ, the smaller
/// first; and a text comes before every text it begins.
pub proof fn the_first_difference_decides(
    shared: Seq<char>,
    one: char,
    other: char,
    a: Seq<char>,
    b: Seq<char>,
)
    ensures
        comes_first(shared, shared + a),
        a.len() > 0 ==> !comes_first(shared + a, shared),
        one < other ==> comes_first(shared.push(one) + a, shared.push(other) + b) && !comes_first(
            shared.push(other) + b,
            shared.push(one) + a,
        ),
    decreases shared.len(),
{
    let left = shared.push(one) + a;
    let right = shared.push(other) + b;
    if shared.len() == 0 {
        assert(left[0] == one);
        assert(right[0] == other);
    } else {
        let rest = shared.drop_first();
        the_first_difference_decides(rest, one, other, a, b);
        assert((shared + a).drop_first() =~= rest + a);
        assert(left.drop_first() =~= rest.push(one) + a);
        assert(right.drop_first() =~= rest.push(other) + b);
    }
}

/// A number written down in decimal is read back as itself, where it is within
/// the limit, and not at all where it is not; with a minus sign before it, it is
/// read back as a negative one.
pub proof fn a_written_number_is_read_back(value: nat, limit: int)
    ensures
        unsigned(decimal(value), limit) == (if value <= limit {
            Some(value as int)
        } else {
            None
        }),
        signed(decimal(value), limit) == unsigned(decimal(value), limit),
        signed(seq!['-'] + decimal(value), limit) == (if value <= limit + 1 {
            Some(-(value as int))
        } else {
            None
        }),
        unsigned(seq!['-'] + decimal(value), limit) is None,
        unsigned(Seq::empty(), limit) is None,
{
    decimal_reads_back(value);
    let text = decimal(value);
    assert('0' <= text[0] <= '9');
    let negative = seq!['-'] + text;
    assert(negative.drop_first() =~= text);
    assert(negative[0] == '-');
    assert(!is_decimal(negative));
}

/// Upper case changes the small letters of ASCII and nothing else: each becomes
/// the capital as far from `A` as it was from `a`.
pub proof fn upper_case_changes_only_small_letters(text: Seq<char>, i: int)
    requires
        0 <= i < text.len(),
    ensures
        uppered(text).len() == text.len(),
        'a' <= text[i] <= 'z' ==> uppered(text)[i] as int - 'A' as int == text[i] as int
            - 'a' as int,
        !('a' <= text[i] <= 'z') ==> uppered(text)[i] == text[i],
        uppered(uppered(text)) == uppered(text),
{
    assert(uppered(uppered(text)) =~= uppered(text));
}

} // verus!
