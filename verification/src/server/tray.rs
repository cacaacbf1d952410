//! The system tray: what its items are called, what they look like, and what
//! their menus hold.
//!
//! An application does not draw a tray icon; it publishes an item on the session
//! bus and waits for a panel to come and ask about it. What crosses the wire is a
//! picture and a label.

use crate::apps::base64::base64;
use crate::apps::icons::data_url;
use crate::apps::words::{join, joined, push_text, split_whitespace, words};
use crate::protocol::messages::{menu_view, TrayMenuItem, TrayMenuItemView};
use crate::text::{
    a_text_splits_at_the_first, chars_of, find, first_at, first_at_bounds,
    first_at_found, same, slice_of, text_of,
};
use vstd::prelude::*;

verus! {

/// The biggest pixmap worth sending. Items commonly offer 16, 22, 24 and 32;
/// anything above this is a scaled-up version of one of them and costs the wire
/// more than it gives the eye.
pub const MAX_PIXMAP: i32 = 64;

/// The address of an item that announces itself: a bus name, or just an object
/// path, in which case the sender of the message is the bus name.
pub fn item_address(service: &str, sender: &Option<String>) -> (address: String)
    ensures
        address@ == (if service@.len() > 0 && service@[0] == '/' {
            (match sender {
                Some(name) => name@,
                None => service@,
            }) + service@
        } else {
            service@
        }),
{
    if !service.is_empty() && service.get_char(0) == '/' {
        match sender {
            Some(name) => name.as_str().to_owned().concat(service),
            None => service.to_owned().concat(service),
        }
    } else {
        service.to_owned()
    }
}

/// Whether an address is among those registered.
pub open spec fn is_registered(items: Seq<Seq<char>>, address: Seq<char>) -> bool {
    items.contains(address)
}

/// The addresses once one more was announced.
pub open spec fn registering(items: Seq<Seq<char>>, address: Seq<char>) -> Seq<Seq<char>> {
    if items.contains(address) {
        items
    } else {
        items.push(address)
    }
}

/// Register an item. Returns whether it is new: one that announces itself twice
/// is one item.
pub fn register(items: &mut Vec<String>, address: String) -> (changed: bool)
    ensures
        changed == !is_registered(old(items).deep_view(), address@),
        final(items).deep_view() == registering(old(items).deep_view(), address@),
        final(items).deep_view() == (if changed {
            old(items).deep_view().push(address@)
        } else {
            old(items).deep_view()
        }),
{
    let ghost all = items.deep_view();
    let mut i: usize = 0;
    while i < items.len()
        invariant
            i <= items@.len(),
            items.deep_view() == all,
            forall|j: int| 0 <= j < i ==> #[trigger] all[j] != address@,
        decreases items@.len() - i,
    {
        assert(all[i as int] == items@[i as int]@);
        if same(items[i].as_str(), address.as_str()) {
            return false;
        }
        i = i + 1;
    }
    push_text(items, address);
    true
}

/// An item's address in two: the bus name and the object path, which is the usual
/// one where the address has none.
pub open spec fn address_parts(address: Seq<char>) -> (Seq<char>, Seq<char>) {
    let at = first_at(address, '/', 0);
    if at < address.len() {
        (address.take(at), address.skip(at))
    } else {
        (address, "/StatusNotifierItem"@)
    }
}

/// Split an item's address into the bus name and the object path.
pub fn split(address: &str) -> (parts: (String, String))
    ensures
        parts.deep_view() == address_parts(address@),
{
    let chars = chars_of(address);
    let at: usize = find(&chars, '/', 0);
    if at < chars.len() {
        let bus = slice_of(&chars, 0, at);
        let path = slice_of(&chars, at, chars.len());
        assert(bus@ =~= address@.take(at as int));
        assert(path@ =~= address@.skip(at as int));
        (bus, path)
    } else {
        (address.to_owned(), "/StatusNotifierItem".to_owned())
    }
}

/// The items that are not on a bus name.
pub open spec fn elsewhere(items: Seq<Seq<char>>, name: Seq<char>) -> Seq<Seq<char>> {
    items.filter(|address: Seq<char>| address_parts(address).0 != name)
}

/// Drop the items whose bus name has gone. Returns whether there were any.
///
/// An item that goes away takes its bus name with it, and says nothing: a crashed
/// application would otherwise leave its icon in the panel for good.
pub fn forget(items: &mut Vec<String>, name: &str) -> (changed: bool)
    ensures
        final(items).deep_view() == elsewhere(old(items).deep_view(), name@),
        changed == (final(items).deep_view().len() != old(items).deep_view().len()),
{
    let ghost all = items.deep_view();
    let ghost stays = |address: Seq<char>| address_parts(address).0 != name@;
    let before: usize = items.len();
    let mut kept: Vec<String> = Vec::new();
    let mut i: usize = 0;
    proof {
        reveal(Seq::filter);
        assert(kept.deep_view() =~= all.take(0).filter(stays));
    }
    while i < items.len()
        invariant
            i <= items@.len(),
            items.deep_view() == all,
            stays == (|address: Seq<char>| address_parts(address).0 != name@),
            kept.deep_view() == all.take(i as int).filter(stays),
        decreases items@.len() - i,
    {
        proof {
            reveal(Seq::filter);
            assert(all.take(i + 1).drop_last() =~= all.take(i as int));
            assert(all.take(i + 1).last() == items@[i as int]@);
        }
        let (bus, _): (String, String) = split(items[i].as_str());
        if !same(bus.as_str(), name) {
            push_text(&mut kept, items[i].clone());
        }
        i = i + 1;
    }
    assert(all.take(i as int) =~= all);
    let after: usize = kept.len();
    assert(kept.deep_view().len() == after);
    *items = kept;
    after != before
}

/// A pixmap an item offers: its width, its height and its pixels.
pub type Pixmap = (i32, i32, Vec<u8>);

/// Whether a pixmap has as many pixels as it says, and any at all.
pub open spec fn usable(pixmap: Pixmap) -> bool {
    &&& pixmap.0 > 0
    &&& pixmap.1 > 0
    &&& pixmap.2@.len() >= pixmap.0 * pixmap.1 * 4
}

/// Whether the pixmap at `i` is the one to take: the widest that is not too wide,
/// the last of them; or where every one is, the narrowest, the first of them.
pub open spec fn is_best_pixmap(pixmaps: Seq<Pixmap>, i: int) -> bool {
    &&& 0 <= i < pixmaps.len()
    &&& usable(pixmaps[i])
    &&& if pixmaps[i].0 <= MAX_PIXMAP {
        forall|j: int|
            0 <= j < pixmaps.len() && usable(#[trigger] pixmaps[j]) && pixmaps[j].0 <= MAX_PIXMAP
                ==> pixmaps[j].0 < pixmaps[i].0 || (pixmaps[j].0 == pixmaps[i].0 && j <= i)
    } else {
        forall|j: int|
            0 <= j < pixmaps.len() && usable(#[trigger] pixmaps[j]) ==> pixmaps[i].0
                < pixmaps[j].0 || (pixmaps[j].0 == pixmaps[i].0 && i <= j)
    }
}

fn is_usable(pixmap: &Pixmap) -> (result: bool)
    ensures
        result == usable(*pixmap),
{
    if pixmap.0 <= 0 || pixmap.1 <= 0 {
        return false;
    }
    proof {
        assert(0 <= pixmap.0 * pixmap.1 <= 0x7fff_ffff * 0x7fff_ffff) by (nonlinear_arith)
            requires
                0 <= pixmap.0 <= 0x7fff_ffff,
                0 <= pixmap.1 <= 0x7fff_ffff,
        ;
    }
    let needed: u128 = pixmap.0 as u128 * pixmap.1 as u128 * 4;
    pixmap.2.len() as u128 >= needed
}

/// The largest pixmap that is not bigger than [`MAX_PIXMAP`], or the smallest one
/// offered if every one of them is.
pub fn best_pixmap(pixmaps: &[Pixmap]) -> (best: Option<usize>)
    ensures
        match best {
            Some(i) => is_best_pixmap(pixmaps@, i as int),
            None => forall|j: int| 0 <= j < pixmaps@.len() ==> !usable(#[trigger] pixmaps@[j]),
        },
{
    let mut fitting: Option<usize> = None;
    let mut smallest: Option<usize> = None;
    let mut i: usize = 0;
    while i < pixmaps.len()
        invariant
            i <= pixmaps@.len(),
            match fitting {
                Some(k) => k < i && usable(pixmaps@[k as int]) && pixmaps@[k as int].0
                    <= MAX_PIXMAP && forall|j: int|
                    0 <= j < i && usable(#[trigger] pixmaps@[j]) && pixmaps@[j].0 <= MAX_PIXMAP
                        ==> pixmaps@[j].0 < pixmaps@[k as int].0 || (pixmaps@[j].0
                        == pixmaps@[k as int].0 && j <= k),
                None => forall|j: int|
                    0 <= j < i && usable(#[trigger] pixmaps@[j]) ==> pixmaps@[j].0 > MAX_PIXMAP,
            },
            match smallest {
                Some(k) => k < i && usable(pixmaps@[k as int]) && forall|j: int|
                    0 <= j < i && usable(#[trigger] pixmaps@[j]) ==> pixmaps@[k as int].0
                        < pixmaps@[j].0 || (pixmaps@[j].0 == pixmaps@[k as int].0 && k <= j),
                None => forall|j: int| 0 <= j < i ==> !usable(#[trigger] pixmaps@[j]),
            },
        decreases pixmaps@.len() - i,
    {
        if is_usable(&pixmaps[i]) {
            let width: i32 = pixmaps[i].0;
            if width <= MAX_PIXMAP {
                fitting = match fitting {
                    Some(k) => if pixmaps[k].0 <= width {
                        Some(i)
                    } else {
                        Some(k)
                    },
                    None => Some(i),
                };
            }
            smallest = match smallest {
                Some(k) => if width < pixmaps[k].0 {
                    Some(i)
                } else {
                    Some(k)
                },
                None => Some(i),
            };
        }
        i = i + 1;
    }
    match fitting {
        Some(k) => Some(k),
        None => smallest,
    }
}

/// Pixels with their channels moved from `A R G B` to `R G B A`: the same four
/// values, the first of them last.
pub open spec fn rotated(argb: Seq<u8>, length: nat) -> Seq<u8> {
    Seq::new(
        length,
        |i: int|
            if i % 4 == 3 {
                argb[i - 3]
            } else {
                argb[i + 1]
            },
    )
}

/// What the `png` crate makes of a picture: the encoded file, where it does.
pub uninterp spec fn png_file(width: u32, height: u32, rgba: Seq<u8>) -> Option<Seq<u8>>;

/// `png::Encoder`, set to eight-bit RGBA, its header and one image of these pixels
/// written and the file finished; `None` where any of these steps fails. That is
/// where a side is zero, which the header refuses, and nowhere else: the pixels
/// are as many as the header says, compressed data is cut into as many chunks as
/// it takes, and writing to memory does not fail.
#[verifier::external_body]
fn encode_png(width: u32, height: u32, rgba: &[u8]) -> (file: Option<Vec<u8>>)
    requires
        rgba@.len() == width * height * 4,
    ensures
        match file {
            Some(bytes) => png_file(width, height, rgba@) == Some(bytes@),
            None => png_file(width, height, rgba@) is None,
        },
        file is Some == (width != 0 && height != 0),
{
    let mut out = Vec::new();
    let mut encoder = png::Encoder::new(&mut out, width, height);
    encoder.set_color(png::ColorType::Rgba);
    encoder.set_depth(png::BitDepth::Eight);
    let mut writer = encoder.write_header().ok()?;
    writer.write_image_data(rgba).ok()?;
    writer.finish().ok()?;
    Some(out)
}

/// The pixels of an item's pixmap as a PNG wants them, where there are as many as
/// its size implies.
///
/// An item's pixels are `A R G B` with straight alpha, so nothing but the order
/// of the channels has to change.
pub fn rgba(width: i32, height: i32, argb: &[u8]) -> (pixels: Option<Vec<u8>>)
    ensures
        if width >= 0 && height >= 0 && width * height * 4 <= argb@.len() {
            pixels is Some && pixels->0@ == rotated(argb@, (width * height * 4) as nat)
        } else {
            pixels is None
        },
{
    if width < 0 || height < 0 {
        return None;
    }
    proof {
        assert(0 <= width * height <= 0x7fff_ffff * 0x7fff_ffff) by (nonlinear_arith)
            requires
                0 <= width <= 0x7fff_ffff,
                0 <= height <= 0x7fff_ffff,
        ;
    }
    let needed: u128 = width as u128 * height as u128 * 4;
    if (argb.len() as u128) < needed {
        return None;
    }
    let count: usize = needed as usize;
    let mut pixels: Vec<u8> = Vec::new();
    let mut i: usize = 0;
    while i < count
        invariant
            i <= count <= argb@.len(),
            argb.len() == argb@.len(),
            i % 4 == 0,
            count % 4 == 0,
            pixels@ =~= rotated(argb@, i as nat),
        decreases count - i,
    {
        pixels.push(argb[i + 1]);
        pixels.push(argb[i + 2]);
        pixels.push(argb[i + 3]);
        pixels.push(argb[i]);
        i = i + 4;
    }
    Some(pixels)
}

/// Encode an item's pixmap as a PNG: where it has any extent, and as many pixels
/// as its size implies.
pub fn png(width: i32, height: i32, argb: &[u8]) -> (file: Option<Vec<u8>>)
    ensures
        if width >= 0 && height >= 0 && width * height * 4 <= argb@.len() {
            file.deep_view() == png_file(
                width as u32,
                height as u32,
                rotated(argb@, (width * height * 4) as nat),
            )
        } else {
            file is None
        },
        file is Some <==> width > 0 && height > 0 && width * height * 4 <= argb@.len(),
{
    match rgba(width, height, argb) {
        Some(pixels) => {
            let file = encode_png(width as u32, height as u32, pixels.as_slice());
            proof {
                if file is Some {
                    assert(file->0.deep_view() =~= file->0@);
                }
            }
            file
        },
        None => None,
    }
}

/// The picture of an item that offers these pixmaps, as a `data:` URL.
pub open spec fn pixmap_picture(pixmaps: Seq<Pixmap>, i: int) -> Option<Seq<char>> {
    let (width, height, argb) = pixmaps[i];
    match png_file(width as u32, height as u32, rotated(argb@, (width * height * 4) as nat)) {
        Some(file) => Some(data_url("image/png"@, file)),
        None => None,
    }
}

/// An encoded picture, as a `data:` URL the browser can put in an image element.
pub fn picture_url(file: &[u8]) -> (url: String)
    ensures
        url@ == data_url("image/png"@, file@),
{
    let mut url = "data:".to_owned();
    url.append("image/png");
    url.append(";base64,");
    url.append(base64(file).as_str());
    url
}

/// An item's own picture, as a `data:` URL the browser can put in an image
/// element: the best of its pixmaps, re-encoded. There is none only where no
/// pixmap is usable.
pub fn pixmap_url(pixmaps: &[Pixmap]) -> (url: Option<String>)
    ensures
        match url {
            Some(text) => exists|i: int|
                is_best_pixmap(pixmaps@, i) && #[trigger] pixmap_picture(pixmaps@, i) == Some(
                    text@,
                ),
            None => forall|j: int| 0 <= j < pixmaps@.len() ==> !usable(#[trigger] pixmaps@[j]),
        },
{
    match best_pixmap(pixmaps) {
        None => None,
        Some(i) => {
            let pixmap = &pixmaps[i];
            let file = png(pixmap.0, pixmap.1, pixmap.2.as_slice());
            proof {
                assert(usable(pixmaps@[i as int]));
                assert(0 <= pixmap.0 * pixmap.1) by (nonlinear_arith)
                    requires
                        0 <= pixmap.0,
                        0 <= pixmap.1,
                ;
                assert(is_best_pixmap(pixmaps@, i as int));
            }
            match file {
                None => None,
                Some(bytes) => {
                    let url = picture_url(bytes.as_slice());
                    proof {
                        assert(bytes.deep_view() =~= bytes@);
                        assert(pixmap_picture(pixmaps@, i as int) == Some(url@));
                    }
                    Some(url)
                },
            }
        },
    }
}

/// A label with its mnemonic marks taken out: `_` is not part of the word, except
/// `__`, which is one underscore. A tab counts as a space.
pub open spec fn unmarked(label: Seq<char>) -> Seq<char>
    decreases label.len(),
{
    if label.len() == 0 {
        seq![]
    } else if label[0] == '_' {
        if label.len() > 1 && label[1] == '_' {
            seq!['_'] + unmarked(label.skip(2))
        } else {
            unmarked(label.skip(1))
        }
    } else if label[0] == '\t' {
        seq![' '] + unmarked(label.skip(1))
    } else {
        seq![label[0]] + unmarked(label.skip(1))
    }
}

/// A menu label as a person should read it.
pub open spec fn readable(label: Seq<char>) -> Seq<char> {
    joined(words(unmarked(label)))
}

/// A menu label as a person should read it: its mnemonic marks taken out, and its
/// words one space apart.
pub fn clean(label: String) -> (text: String)
    ensures
        text@ == readable(label@),
{
    let chars = chars_of(label.as_str());
    let n: usize = chars.len();
    let mut out: Vec<char> = Vec::new();
    let mut i: usize = 0;
    proof {
        assert(label@.skip(0) =~= label@);
        assert(out@ + unmarked(label@) =~= unmarked(label@));
    }
    while i < n
        invariant
            n == chars@.len(),
            i <= n,
            chars@ == label@,
            out@ + unmarked(label@.skip(i as int)) == unmarked(label@),
        decreases n - i,
    {
        let ghost rest = label@.skip(i as int);
        let ghost before = out@;
        let c = chars[i];
        proof {
            assert(rest.skip(1) =~= label@.skip(i + 1));
            if i + 1 < n {
                assert(rest.skip(2) =~= label@.skip(i + 2));
            }
        }
        if c == '_' {
            if i + 1 < n && chars[i + 1] == '_' {
                out.push('_');
                assert(before + (seq!['_'] + unmarked(rest.skip(2))) =~= out@ + unmarked(
                    rest.skip(2),
                ));
                i = i + 2;
            } else {
                i = i + 1;
            }
        } else {
            let shown = if c == '\t' {
                ' '
            } else {
                c
            };
            out.push(shown);
            assert(before + (seq![shown] + unmarked(rest.skip(1))) =~= out@ + unmarked(
                rest.skip(1),
            ));
            i = i + 1;
        }
    }
    proof {
        assert(label@.skip(i as int) =~= Seq::<char>::empty());
        assert(out@ + Seq::<char>::empty() =~= out@);
    }
    let text = text_of(out.as_slice());
    join(&split_whitespace(text.as_str()))
}

/// One node of an item's menu, as it is published: a property that is absent or
/// of another type is `None`.
#[derive(Debug)]
pub struct MenuNode {
    pub id: i32,
    pub visible: Option<bool>,
    pub kind: Option<String>,
    pub label: Option<String>,
    pub enabled: Option<bool>,
    pub toggle_type: Option<String>,
    pub toggle_state: Option<i32>,
    pub children: Vec<MenuNode>,
}

/// What a [`MenuNode`] says, its children with it.
#[verifier::ext_equal]
pub struct MenuNodeView {
    pub id: i32,
    pub visible: Option<bool>,
    pub kind: Option<Seq<char>>,
    pub label: Option<Seq<char>>,
    pub enabled: Option<bool>,
    pub toggle_type: Option<Seq<char>>,
    pub toggle_state: Option<i32>,
    pub children: Seq<MenuNodeView>,
}

/// A menu node and everything under it.
pub open spec fn node_view(node: MenuNode) -> MenuNodeView
    decreases node,
{
    MenuNodeView {
        id: node.id,
        visible: node.visible,
        kind: node.kind.deep_view(),
        label: node.label.deep_view(),
        enabled: node.enabled,
        toggle_type: node.toggle_type.deep_view(),
        toggle_state: node.toggle_state,
        children: Seq::new(
            node.children@.len(),
            |i: int|
                if 0 <= i < node.children@.len() {
                    node_view(node.children@[i])
                } else {
                    arbitrary()
                },
        ),
    }
}

impl DeepView for MenuNode {
    type V = MenuNodeView;

    open spec fn deep_view(&self) -> MenuNodeView {
        node_view(*self)
    }
}

/// Whether a row can be ticked, and then whether it is.
pub open spec fn tick_of(node: MenuNodeView) -> Option<bool> {
    if node.toggle_type == Some("checkmark"@) || node.toggle_type == Some("radio"@) {
        Some(node.toggle_state is Some && node.toggle_state->0 > 0)
    } else {
        None
    }
}

/// The row a menu node is shown as, if any. Invisible nodes are not shown, nor
/// are those that have nothing to read and are no separators.
pub open spec fn row(node: MenuNodeView) -> Option<TrayMenuItemView>
    decreases node,
{
    if node.visible == Some(false) {
        None
    } else if node.kind == Some("separator"@) {
        Some(
            TrayMenuItemView {
                id: node.id,
                label: Seq::empty(),
                enabled: false,
                checked: None,
                separator: true,
                children: Seq::empty(),
            },
        )
    } else if node.label is None || readable(node.label->0).len() == 0 {
        None
    } else {
        Some(
            TrayMenuItemView {
                id: node.id,
                label: readable(node.label->0),
                enabled: node.enabled != Some(false),
                checked: tick_of(node),
                separator: false,
                children: rows(node.children),
            },
        )
    }
}

/// The rows that menu nodes are shown as, in order.
pub open spec fn rows(nodes: Seq<MenuNodeView>) -> Seq<TrayMenuItemView>
    decreases nodes,
{
    if nodes.len() == 0 {
        seq![]
    } else {
        match row(nodes[0]) {
            Some(item) => seq![item] + rows(nodes.drop_first()),
            None => rows(nodes.drop_first()),
        }
    }
}

/// Whether an optional text is this one.
fn is_text(text: &Option<String>, wanted: &str) -> (result: bool)
    ensures
        result == (text.deep_view() == Some(wanted@)),
{
    match text {
        Some(inner) => same(inner.as_str(), wanted),
        None => false,
    }
}

/// Turn one menu node into a row, or drop it.
pub fn menu_item(node: &MenuNode) -> (item: Option<TrayMenuItem>)
    ensures
        match item {
            Some(shown) => row(node_view(*node)) == Some(menu_view(shown)),
            None => row(node_view(*node)) is None,
        },
    decreases *node, 0nat,
{
    if let Some(visible) = node.visible {
        if !visible {
            return None;
        }
    }
    if is_text(&node.kind, "separator") {
        let item = TrayMenuItem {
            id: node.id,
            label: String::new(),
            enabled: false,
            checked: None,
            separator: true,
            children: Vec::new(),
        };
        assert(menu_view(item).children =~= Seq::empty());
        return Some(item);
    }
    let label = match &node.label {
        Some(label) => clean(label.clone()),
        None => {
            return None;
        },
    };
    if label.as_str().is_empty() {
        return None;
    }
    let checked: Option<bool> = if is_text(&node.toggle_type, "checkmark") || is_text(
        &node.toggle_type,
        "radio",
    ) {
        match node.toggle_state {
            Some(state) => Some(state > 0),
            None => Some(false),
        }
    } else {
        None
    };
    let enabled = match node.enabled {
        Some(enabled) => enabled,
        None => true,
    };
    assert(decreases_to!(*node => node.children@));
    let children = menu_items(&node.children);
    assert(node_view(*node).children =~= node.children.deep_view());
    let item = TrayMenuItem { id: node.id, label, enabled, checked, separator: false, children };
    assert(menu_view(item).children =~= item.children.deep_view());
    Some(item)
}

/// Turn menu nodes into rows.
pub fn menu_items(nodes: &Vec<MenuNode>) -> (items: Vec<TrayMenuItem>)
    ensures
        items.deep_view() == rows(nodes.deep_view()),
    decreases nodes@, 1nat,
{
    let ghost all = nodes.deep_view();
    let mut items: Vec<TrayMenuItem> = Vec::new();
    let mut i: usize = 0;
    proof {
        assert(all.skip(0) =~= all);
        assert(items.deep_view() + rows(all) =~= rows(all));
    }
    while i < nodes.len()
        invariant
            i <= nodes@.len(),
            all == nodes.deep_view(),
            items.deep_view() + rows(all.skip(i as int)) == rows(all),
        decreases nodes@.len() - i,
    {
        let ghost before = items.deep_view();
        let ghost rest = all.skip(i as int);
        proof {
            assert(decreases_to!(nodes@ => nodes@[i as int]));
            assert(rest.drop_first() =~= all.skip(i + 1));
            assert(all[i as int] == node_view(nodes@[i as int]));
        }
        if let Some(item) = menu_item(&nodes[i]) {
            let ghost shown = menu_view(item);
            items.push(item);
            proof {
                assert(items.deep_view() =~= before.push(shown));
                assert(before + (seq![shown] + rows(rest.drop_first())) =~= before.push(shown)
                    + rows(rest.drop_first()));
            }
        }
        i = i + 1;
    }
    proof {
        assert(all.skip(i as int) =~= Seq::<MenuNodeView>::empty());
        assert(items.deep_view() + Seq::<TrayMenuItemView>::empty() =~= items.deep_view());
    }
    items
}

/// Whether a row, and every row under it, can be read: it is a separator or it
/// says something.
pub open spec fn can_be_read(item: TrayMenuItemView) -> bool
    decreases item,
{
    (item.separator || item.label.len() > 0) && all_can_be_read(item.children)
}

/// Whether every row can be read.
pub open spec fn all_can_be_read(items: Seq<TrayMenuItemView>) -> bool
    decreases items,
{
    items.len() > 0 ==> can_be_read(items[0]) && all_can_be_read(items.drop_first())
}

/// A menu is read, and a blank row cannot be: whatever an application publishes,
/// every row shown is a separator or says something, and so is every row below.
pub proof fn no_row_is_blank(nodes: Seq<MenuNodeView>)
    ensures
        all_can_be_read(rows(nodes)),
    decreases nodes, 1nat,
{
    if nodes.len() > 0 {
        no_row_is_blank(nodes.drop_first());
        no_node_is_blank(nodes[0]);
        if let Some(item) = row(nodes[0]) {
            let list = seq![item] + rows(nodes.drop_first());
            assert(list[0] == item);
            assert(list.drop_first() =~= rows(nodes.drop_first()));
        }
    }
}

proof fn no_node_is_blank(node: MenuNodeView)
    ensures
        row(node) matches Some(item) ==> can_be_read(item),
    decreases node, 0nat,
{
    no_row_is_blank(node.children);
}

/// An address is its bus name with its object path behind it: the name goes up
/// to the first slash and the path begins with it. An address without a slash is
/// all name, and its path is the usual one.
pub proof fn an_address_is_its_name_and_its_path(address: Seq<char>)
    ensures
        ({
            let (name, path) = address_parts(address);
            &&& !name.contains('/')
            &&& address.contains('/') ==> name + path == address && path.len() > 0 && path[0] == '/'
            &&& !address.contains('/') ==> name == address && path == "/StatusNotifierItem"@
        }),
{
    let (name, path) = address_parts(address);
    let at = first_at(address, '/', 0);
    first_at_bounds(address, '/', 0);
    if address.contains('/') {
        let k = choose|k: int| 0 <= k < address.len() && address[k] == '/';
        first_at_found(address, '/', 0, k);
        a_text_splits_at_the_first(address, '/', address.take(at), address.skip(at + 1));
        assert(address.take(at) + address.skip(at) =~= address);
        assert(address.take(at).push('/') + address.skip(at + 1) == address);
        assert(address[at] == (address.take(at).push('/') + address.skip(at + 1))[at]);
        assert(path[0] == address[at]);
    } else {
        a_text_splits_at_the_first(address, '/', address, address);
    }
}

/// When a bus name goes, exactly the items on it go with it.
pub proof fn items_go_with_their_bus_name(
    items: Seq<Seq<char>>,
    name: Seq<char>,
    address: Seq<char>,
)
    requires
        items.contains(address),
    ensures
        elsewhere(items, name).contains(address) <==> address_parts(address).0 != name,
{
    let stays = |address: Seq<char>| address_parts(address).0 != name;
    let i = choose|i: int| 0 <= i < items.len() && items[i] == address;
    if stays(address) {
        items.lemma_filter_contains(stays, i);
    } else if elsewhere(items, name).contains(address) {
        let k = choose|k: int|
            0 <= k < elsewhere(items, name).len() && elsewhere(items, name)[k] == address;
        items.lemma_filter_pred(stays, k);
    }
}

/// Moving the channels keeps each pixel in its place and each of its values: what
/// was alpha, red, green and blue is now red, green, blue and alpha.
pub proof fn a_pixel_keeps_its_channels(argb: Seq<u8>, length: nat, p: int)
    requires
        length % 4 == 0,
        length <= argb.len(),
        0 <= p,
        p * 4 + 4 <= length,
    ensures
        ({
            let rgba = rotated(argb, length);
            let (alpha, red, green, blue) = (
                argb[p * 4],
                argb[p * 4 + 1],
                argb[p * 4 + 2],
                argb[p * 4 + 3],
            );
            &&& rgba.len() == length
            &&& rgba[p * 4] == red && rgba[p * 4 + 1] == green && rgba[p * 4 + 2] == blue && rgba[p
                * 4 + 3] == alpha
        }),
{
}

/// A text with its underscores doubled, as a label spells one that is meant.
pub open spec fn spelled(text: Seq<char>) -> Seq<char>
    decreases text.len(),
{
    if text.len() == 0 {
        seq![]
    } else if text[0] == '_' {
        seq!['_', '_'] + spelled(text.skip(1))
    } else {
        seq![text[0]] + spelled(text.skip(1))
    }
}

/// A label says what it spells: with every underscore that is meant doubled, the
/// text comes back; and one underscore more, in front of any letter but another,
/// marks that letter and is not read.
pub proof fn a_label_says_what_it_spells(text: Seq<char>)
    requires
        !text.contains('\t'),
    ensures
        unmarked(spelled(text)) == text,
        text.len() == 0 || text[0] != '_' ==> unmarked(seq!['_'] + spelled(text)) == text,
    decreases text.len(),
{
    let label = spelled(text);
    if text.len() > 0 {
        let rest = text.skip(1);
        assert forall|i: int| 0 <= i < rest.len() implies rest[i] != '\t' by {
            assert(rest[i] == text[i + 1]);
            assert(text.contains(text[i + 1]));
        }
        assert(!rest.contains('\t'));
        a_label_says_what_it_spells(rest);
        assert(text.contains(text[0]));
        assert(seq![text[0]] + rest =~= text);
        if text[0] == '_' {
            assert(label.skip(2) =~= spelled(rest));
        } else {
            assert(label.skip(1) =~= spelled(rest));
        }
    }
    let marked = seq!['_'] + label;
    assert(marked.skip(1) =~= label);
    if text.len() > 0 && text[0] != '_' {
        assert(marked[1] == text[0]);
    }
}

/// A node is shown as what it says: under its own id, with its label cleaned,
/// greyed out only where it says so, ticked only where it can be and is, and with
/// the rows of its own children. One that is not visible is not shown, and a
/// separator is only ever a line.
pub proof fn a_row_says_what_its_node_says(node: MenuNodeView)
    ensures
        node.visible == Some(false) ==> row(node) is None,
        node.visible != Some(false) && node.kind == Some("separator"@) ==> (row(node) matches Some(
            item,
        ) && item.separator && item.id == node.id && !item.enabled && item.children.len() == 0),
        row(node) matches Some(item) ==> {
            &&& item.id == node.id
            &&& item.separator <==> node.kind == Some("separator"@)
            &&& !item.separator ==> {
                &&& node.label is Some && item.label == readable(node.label->0)
                &&& item.enabled <==> node.enabled != Some(false)
                &&& item.checked is Some <==> node.toggle_type == Some("checkmark"@)
                    || node.toggle_type == Some("radio"@)
                &&& item.checked == Some(true) ==> node.toggle_state is Some
                    && node.toggle_state->0 > 0
                &&& item.checked == Some(false) ==> node.toggle_state is None
                    || node.toggle_state->0 <= 0
                &&& item.children == rows(node.children)
            }
        },
        node.visible != Some(false) && node.kind != Some("separator"@) && node.label is Some
            && readable(node.label->0).len() > 0 ==> row(node) is Some,
{
}

/// Rows stand in the order of their nodes, one for each that is shown.
pub proof fn rows_stand_in_order(nodes: Seq<MenuNodeView>, node: MenuNodeView)
    ensures
        rows(nodes.push(node)) == (match row(node) {
            Some(item) => rows(nodes).push(item),
            None => rows(nodes),
        }),
    decreases nodes.len(),
{
    let more = nodes.push(node);
    if nodes.len() == 0 {
        assert(more.drop_first() =~= Seq::empty());
        assert(more[0] == node);
        assert(rows(Seq::<MenuNodeView>::empty()) =~= Seq::empty());
        assert(rows(more) =~= (match row(node) {
            Some(item) => rows(nodes).push(item),
            None => rows(nodes),
        }));
    } else {
        rows_stand_in_order(nodes.drop_first(), node);
        assert(more.drop_first() =~= nodes.drop_first().push(node));
        assert(more[0] == nodes[0]);
        assert(rows(more) =~= (match row(node) {
            Some(item) => rows(nodes).push(item),
            None => rows(nodes),
        }));
    }
}

/// An item that announces itself by a path is reached through whoever sent the
/// announcement, and one that announces a name is reached by that name.
pub proof fn an_item_is_reached_through_its_sender(
    service: &str,
    sender: Option<String>,
    address: String,
)
    requires
        call_ensures(item_address, (service, &sender), address),
    ensures
        service@.len() > 0 && service@[0] == '/' && sender is Some ==> address@ == sender->0@
            + service@,
        service@.len() == 0 || service@[0] != '/' ==> address@ == service@,
{
}

/// An item is registered once, behind those that came before it, however often it
/// announces itself.
pub proof fn an_item_is_registered_once(items: Seq<Seq<char>>, address: Seq<char>)
    ensures
        registering(items, address).contains(address),
        registering(registering(items, address), address) == registering(items, address),
        registering(items, address).take(items.len() as int) == items,
        items.no_duplicates() ==> registering(items, address).no_duplicates(),
{
    let more = items.push(address);
    assert(more[items.len() as int] == address);
    assert(more.take(items.len() as int) =~= items);
    assert(items.take(items.len() as int) =~= items);
    if items.no_duplicates() && !items.contains(address) {
        assert forall|i: int, j: int| 0 <= i < more.len() && 0 <= j < more.len() && i
            != j implies more[i] != more[j] by {
            if i < items.len() {
                assert(items.contains(items[i]));
            }
            if j < items.len() {
                assert(items.contains(items[j]));
            }
        }
    }
}

/// The pixmap that is taken holds the pixels it says it does. It fits where any
/// that does so fits, and of those that fit none is wider; where none fits, none
/// is narrower.
pub proof fn the_sharpest_pixmap_that_fits_is_taken(
    pixmaps: Seq<Pixmap>,
    i: int,
    j: int,
)
    requires
        is_best_pixmap(pixmaps, i),
        0 <= j < pixmaps.len(),
        pixmaps[j].0 > 0,
        pixmaps[j].1 > 0,
        pixmaps[j].2@.len() >= pixmaps[j].0 * pixmaps[j].1 * 4,
    ensures
        pixmaps[i].0 > 0,
        pixmaps[i].1 > 0,
        pixmaps[i].2@.len() >= pixmaps[i].0 * pixmaps[i].1 * 4,
        pixmaps[j].0 <= MAX_PIXMAP ==> pixmaps[j].0 <= pixmaps[i].0 <= MAX_PIXMAP,
        pixmaps[i].0 > MAX_PIXMAP ==> pixmaps[i].0 <= pixmaps[j].0,
        usable(pixmaps[j]),
{
    assert(usable(pixmaps[j]));
}

} // verus!
