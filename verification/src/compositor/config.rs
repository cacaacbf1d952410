//! What the environment and the host say about the desktop.

use crate::text::{
    a_text_splits_at_the_first, a_written_number_is_read_back, begins_with, cut_while, decimal,
    decimal_reads_back, is_decimal, lines, lines_of, parse_i32, parse_i64, signed, skip_while,
    split_at_first, split_once, strip_prefix, trim, trimmed,
};
use vstd::prelude::*;

verus! {

/// The size to ask clients to render at before a browser has said anything.
pub const DEFAULT_SIZE: (i32, i32) = (1280, 800);

/// Encoder target bitrate. A desktop is mostly still, so the encoder spends far
/// less than this in practice; it is a ceiling for the worst case.
pub const DEFAULT_BITRATE: i64 = 8_000_000;

/// The size a `WxH` text stands for.
pub open spec fn size_of(value: Seq<char>) -> Option<(int, int)> {
    match split_at_first(value, 'x') {
        Some((w, h)) => match (
            signed(trimmed(w), i32::MAX as int),
            signed(trimmed(h), i32::MAX as int),
        ) {
            (Some(width), Some(height)) => Some((width, height)),
            _ => None,
        },
        None => None,
    }
}

fn parse_size(value: &str) -> (size: Option<(i32, i32)>)
    ensures
        match size {
            Some((width, height)) => size_of(value@) == Some((width as int, height as int)),
            None => size_of(value@) is None,
        },
{
    match split_once(value, 'x') {
        Some((w, h)) => match parse_i32(trim(w.as_str()).as_str()) {
            Some(width) => match parse_i32(trim(h.as_str()).as_str()) {
                Some(height) => Some((width, height)),
                None => None,
            },
            None => None,
        },
        None => None,
    }
}

/// The size to ask clients to render at, from `WEBLAND_SIZE`: its value where
/// that is a size, else the default.
pub fn configured_size(value: &Option<String>) -> (size: (i32, i32))
    ensures
        (size.0 as int, size.1 as int) == (match value {
            Some(text) => match size_of(text@) {
                Some(wanted) => wanted,
                None => (DEFAULT_SIZE.0 as int, DEFAULT_SIZE.1 as int),
            },
            None => (DEFAULT_SIZE.0 as int, DEFAULT_SIZE.1 as int),
        }),
{
    match value {
        Some(text) => match parse_size(text.as_str()) {
            Some(size) => size,
            None => DEFAULT_SIZE,
        },
        None => DEFAULT_SIZE,
    }
}

/// The encoder's bitrate, from `WEBLAND_BITRATE`: its value where that is a
/// number, else the default.
pub fn bitrate(value: &Option<String>) -> (rate: i64)
    ensures
        rate == (match value {
            Some(text) => match signed(text@, i64::MAX as int) {
                Some(wanted) => wanted,
                None => DEFAULT_BITRATE as int,
            },
            None => DEFAULT_BITRATE as int,
        }),
{
    match value {
        Some(text) => match parse_i64(text.as_str()) {
            Some(rate) => rate,
            None => DEFAULT_BITRATE,
        },
        None => DEFAULT_BITRATE,
    }
}

/// The render node to open, from `WEBLAND_RENDER_NODE`.
pub fn render_node(value: Option<String>) -> (path: String)
    ensures
        path@ == (match value {
            Some(text) => text@,
            None => "/dev/dri/renderD128"@,
        }),
{
    match value {
        Some(text) => text,
        None => "/dev/dri/renderD128".to_owned(),
    }
}

/// A text without the double quotes round it.
pub open spec fn unquoted(text: Seq<char>) -> Seq<char> {
    let drop = |c: char| c == '"';
    cut_while(skip_while(text, drop), drop)
}

/// The layout that a line of the host's console configuration names.
pub open spec fn layout_of(line: Seq<char>) -> Option<Seq<char>> {
    if begins_with(line, "XKBLAYOUT="@) {
        let value = unquoted(trimmed(line.skip("XKBLAYOUT="@.len() as int)));
        if value.len() > 0 {
            Some(value)
        } else {
            None
        }
    } else {
        None
    }
}

/// The first layout that any of these lines names.
pub open spec fn first_layout(list: Seq<Seq<char>>) -> Option<Seq<char>>
    decreases list.len(),
{
    if list.len() == 0 {
        None
    } else if layout_of(list[0]) is Some {
        layout_of(list[0])
    } else {
        first_layout(list.drop_first())
    }
}

/// A text without the double quotes round it.
fn unquote(text: &str) -> (result: String)
    ensures
        result@ == unquoted(text@),
{
    let chars = crate::text::chars_of(text);
    let ghost drop = |c: char| c == '"';
    let mut start: usize = 0;
    assert(text@.skip(0) =~= text@);
    while start < chars.len() && chars[start] == '"'
        invariant
            start <= chars@.len(),
            chars@ == text@,
            drop == (|c: char| c == '"'),
            skip_while(text@, drop) == skip_while(text@.skip(start as int), drop),
        decreases chars@.len() - start,
    {
        assert(text@.skip(start as int).drop_first() =~= text@.skip(start + 1));
        start = start + 1;
    }
    let ghost front = text@.skip(start as int);
    let mut end: usize = chars.len();
    assert(text@.subrange(start as int, end as int) =~= front);
    while end > start && chars[end - 1] == '"'
        invariant
            start <= end <= chars@.len(),
            chars@ == text@,
            drop == (|c: char| c == '"'),
            cut_while(front, drop) == cut_while(text@.subrange(start as int, end as int), drop),
        decreases end - start,
    {
        assert(text@.subrange(start as int, end as int).drop_last() =~= text@.subrange(
            start as int,
            end - 1,
        ));
        end = end - 1;
    }
    crate::text::slice_of(&chars, start, end)
}

/// The host's configured xkb layout, out of its console configuration.
pub fn host_layout(conf: &str) -> (layout: Option<String>)
    ensures
        layout.deep_view() == first_layout(lines(conf@)),
{
    let list = lines_of(conf);
    let ghost all = list.deep_view();
    let mut i: usize = 0;
    assert(all.skip(0) =~= all);
    while i < list.len()
        invariant
            i <= list@.len(),
            all == list.deep_view(),
            all == lines(conf@),
            first_layout(all) == first_layout(all.skip(i as int)),
        decreases list@.len() - i,
    {
        assert(all.skip(i as int).drop_first() =~= all.skip(i + 1));
        assert(all[i as int] == list@[i as int]@);
        if let Some(value) = strip_prefix(list[i].as_str(), "XKBLAYOUT=") {
            let layout = unquote(trim(value.as_str()).as_str());
            if !layout.as_str().is_empty() {
                return Some(layout);
            }
        }
        i = i + 1;
    }
    None
}

/// The layout to interpret keys with: the one asked for, else the host's, else
/// none, which leaves it to the keymap library's own default.
pub fn keyboard_layout(wanted: Option<String>, host: Option<String>) -> (layout: String)
    ensures
        layout@ == (match wanted {
            Some(text) => text@,
            None => match host {
                Some(text) => text@,
                None => Seq::<char>::empty(),
            },
        }),
{
    match wanted {
        Some(text) => text,
        None => match host {
            Some(text) => text,
            None => String::new(),
        },
    }
}

/// A text of digits is not shortened by trimming.
proof fn digits_are_not_trimmed(text: Seq<char>)
    requires
        is_decimal(text),
    ensures
        trimmed(text) == text,
{
    let drop = |c: char| crate::text::white(c);
    assert('0' <= text[0] <= '9');
    assert('0' <= text[text.len() - 1] <= '9');
    assert(skip_while(text, drop) == text);
    assert(cut_while(text, drop) == text);
}

/// A size is its width, an x and its height, and is read back as that width and
/// that height.
pub proof fn a_size_is_its_width_and_its_height(width: nat, height: nat)
    requires
        width <= i32::MAX,
        height <= i32::MAX,
    ensures
        size_of(decimal(width) + seq!['x'] + decimal(height)) == Some(
            (width as int, height as int),
        ),
        size_of(decimal(width)) is None,
{
    let w = decimal(width);
    let h = decimal(height);
    let text = w + seq!['x'] + h;
    decimal_reads_back(width);
    decimal_reads_back(height);
    assert(text =~= w.push('x') + h);
    if w.contains('x') {
        let k = choose|k: int| 0 <= k < w.len() && w[k] == 'x';
        assert('0' <= w[k] <= '9');
    }
    a_text_splits_at_the_first(text, 'x', w, h);
    a_text_splits_at_the_first(w, 'x', w, h);
    digits_are_not_trimmed(w);
    digits_are_not_trimmed(h);
    a_written_number_is_read_back(width, i32::MAX as int);
    a_written_number_is_read_back(height, i32::MAX as int);
}

/// The layout is what the line says, in quotes or not; a line about anything else
/// names none.
pub proof fn a_layout_is_named_in_quotes_or_without(name: Seq<char>, line: Seq<char>)
    requires
        name.len() > 0,
        forall|i: int| 0 <= i < name.len() ==> 'a' <= #[trigger] name[i] <= 'z',
    ensures
        layout_of("XKBLAYOUT="@ + name) == Some(name),
        layout_of("XKBLAYOUT="@ + (seq!['"'] + name + seq!['"'])) == Some(name),
        !begins_with(line, "XKBLAYOUT="@) ==> layout_of(line) is None,
{
    let key = "XKBLAYOUT="@;
    let quotes = |c: char| c == '"';
    let drop = |c: char| crate::text::white(c);
    let plain = key + name;
    assert(plain.take(key.len() as int) =~= key);
    assert(plain.skip(key.len() as int) =~= name);
    assert('a' <= name[0] <= 'z');
    assert('a' <= name[name.len() - 1] <= 'z');
    assert(skip_while(name, drop) == name);
    assert(cut_while(name, drop) == name);
    assert(skip_while(name, quotes) == name);
    assert(cut_while(name, quotes) == name);
    let value = seq!['"'] + name + seq!['"'];
    let quoted = key + value;
    assert(quoted.take(key.len() as int) =~= key);
    assert(quoted.skip(key.len() as int) =~= value);
    assert(value[0] == '"' && value.last() == '"');
    assert(skip_while(value, drop) == value);
    assert(cut_while(value, drop) == value);
    let rest = name + seq!['"'];
    assert(value.drop_first() =~= rest);
    assert(rest[0] == name[0]);
    assert(skip_while(rest, quotes) == rest);
    assert(skip_while(value, quotes) == rest);
    assert(rest.drop_last() =~= name);
    assert(rest.last() == '"');
    assert(cut_while(rest, quotes) == cut_while(name, quotes));
}

/// The first line that names a layout decides.
pub proof fn the_first_layout_decides(list: Seq<Seq<char>>, i: int)
    requires
        0 <= i < list.len(),
        layout_of(list[i]) is Some,
        forall|j: int| 0 <= j < i ==> layout_of(#[trigger] list[j]) is None,
    ensures
        first_layout(list) == layout_of(list[i]),
    decreases list.len(),
{
    if i > 0 {
        assert(layout_of(list[0]) is None);
        let rest = list.drop_first();
        assert forall|j: int| 0 <= j < i - 1 implies layout_of(#[trigger] rest[j]) is None by {
            assert(rest[j] == list[j + 1]);
        }
        the_first_layout_decides(rest, i - 1);
    }
}

/// What is asked for comes before what the host has, and either before nothing.
pub proof fn what_is_asked_for_comes_first(
    wanted: Option<String>,
    host: Option<String>,
    layout: String,
)
    requires
        call_ensures(keyboard_layout, (wanted, host), layout),
    ensures
        wanted is Some ==> layout@ == wanted->0@,
        wanted is None && host is Some ==> layout@ == host->0@,
        wanted is None && host is None ==> layout@.len() == 0,
{
}

/// A setting that cannot be read is as good as none.
pub proof fn an_unreadable_setting_is_none(value: Option<String>, size: (i32, i32), rate: i64)
    requires
        call_ensures(configured_size, (&value,), size),
        call_ensures(bitrate, (&value,), rate),
    ensures
        value is None || size_of(value->0@) is None ==> size == (1280i32, 800i32),
        value is None || signed(value->0@, i64::MAX as int) is None ==> rate == 8_000_000,
        value matches Some(text) ==> (size_of(text@) matches Some(wanted) ==> size.0 == wanted.0
            && size.1 == wanted.1),
        value matches Some(text) ==> (signed(text@, i64::MAX as int) matches Some(wanted) ==> rate
            == wanted),
{
}

} // verus!
