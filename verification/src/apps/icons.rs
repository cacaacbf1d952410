//! Where an application's icon is, and how it travels.

use crate::apps::base64::{base64, encoded};
use crate::apps::paths::{a_file_goes_by_its_last_name, has_extension, is_of_type, stem_of};
use crate::apps::words::push_text;
use crate::text::{
    a_text_splits_at_the_first, a_written_number_is_read_back, begins_with, chars_of, decimal,
    decimal_reads_back, find, first_at, first_at_bounds, format_decimal, parse_unsigned,
    split_at_first, split_once, unsigned,
};
use vstd::prelude::*;

verus! {

/// The smallest size of icon that is still crisp where the panel draws it.
pub const SMALLEST_CRISP: u32 = 48;

/// The largest icon that is sent. The listing goes over the wire in a single
/// message, so one oversized icon would be paid for by every browser.
pub const LARGEST_ICON: usize = 262_144;

/// The size that a directory of a theme holds icons of, where its name says.
pub open spec fn directory_size(name: Seq<char>) -> Option<u32> {
    match split_at_first(name, 'x') {
        None => None,
        Some((left, _)) => match unsigned(left, u32::MAX as int) {
            Some(size) => if size >= SMALLEST_CRISP {
                Some(size as u32)
            } else {
                None
            },
            None => None,
        },
    }
}

/// The sizes that the directories of a theme hold icons of.
pub open spec fn directory_sizes(names: Seq<Seq<char>>) -> Seq<u32>
    decreases names.len(),
{
    if names.len() == 0 {
        seq![]
    } else {
        match directory_size(names.last()) {
            Some(size) => insert_size(directory_sizes(names.drop_last()), size),
            None => directory_sizes(names.drop_last()),
        }
    }
}

/// A rising list with one more size in it, behind those it is not smaller than.
pub open spec fn insert_size(list: Seq<u32>, size: u32) -> Seq<u32>
    decreases list.len(),
{
    if list.len() == 0 || list.last() <= size {
        list.push(size)
    } else {
        insert_size(list.drop_last(), size).push(list.last())
    }
}

/// Whether a list rises.
pub open spec fn rises(list: Seq<u32>) -> bool {
    forall|i: int, j: int| 0 <= i <= j < list.len() ==> list[i] <= list[j]
}

proof fn inserting_keeps_rising(list: Seq<u32>, size: u32)
    requires
        rises(list),
    ensures
        rises(insert_size(list, size)),
        insert_size(list, size).to_multiset() == list.to_multiset().insert(size),
        insert_size(list, size).len() == list.len() + 1,
        insert_size(list, size).last() == (if list.len() == 0 || list.last() <= size {
            size
        } else {
            list.last()
        }),
    decreases list.len(),
{
    broadcast use vstd::seq_lib::group_to_multiset_ensures;

    if list.len() == 0 || list.last() <= size {
    } else {
        let front = list.drop_last();
        assert(rises(front)) by {
            assert forall|i: int, j: int| 0 <= i <= j < front.len() implies front[i]
                <= front[j] by {
                assert(list[i] <= list[j]);
            }
        }
        inserting_keeps_rising(front, size);
        assert(front.push(list.last()) =~= list);
        let after = insert_size(front, size);
        if front.len() > 0 {
            assert(list[front.len() - 1] <= list.last());
        }
        assert(after.push(list.last()).to_multiset() =~= list.to_multiset().insert(size));
        assert forall|i: int, j: int| 0 <= i <= j < after.len() + 1 implies after.push(
            list.last(),
        )[i] <= after.push(list.last())[j] by {
            if j == after.len() && i < j {
                assert(after[i] <= after[after.len() - 1]);
            }
        }
    }
}

/// The sizes are tried from the smallest up.
pub proof fn sizes_rise(names: Seq<Seq<char>>)
    ensures
        rises(directory_sizes(names)),
    decreases names.len(),
{
    if names.len() > 0 {
        sizes_rise(names.drop_last());
        if let Some(size) = directory_size(names.last()) {
            inserting_keeps_rising(directory_sizes(names.drop_last()), size);
        }
    }
}

/// Put a size into a rising list, behind those it is not smaller than.
fn insert(list: &mut Vec<u32>, size: u32)
    ensures
        final(list)@ == insert_size(old(list)@, size),
{
    let ghost all = list@;
    let mut at: usize = list.len();
    proof {
        assert(all.take(at as int) =~= all);
        assert(insert_size(all, size) + all.skip(at as int) =~= insert_size(all, size));
    }
    while at > 0 && list[at - 1] > size
        invariant
            at <= list@.len(),
            list@ == all,
            insert_size(all, size) == insert_size(all.take(at as int), size) + all.skip(at as int),
        decreases at,
    {
        proof {
            let part = all.take(at as int);
            assert(part.drop_last() =~= all.take(at - 1));
            assert(insert_size(part.drop_last(), size).push(part.last()) + all.skip(at as int)
                =~= insert_size(all.take(at - 1), size) + all.skip(at - 1));
        }
        at = at - 1;
    }
    list.insert(at, size);
    assert(list@ =~= insert_size(all, size));
}

/// The sizes of icon that a theme holds, from the names of its directories.
///
/// Read rather than guessed: applications install at whatever size they please.
pub fn icon_sizes(names: &Vec<String>) -> (sizes: Vec<u32>)
    ensures
        sizes@ == directory_sizes(names.deep_view()),
{
    let ghost all = names.deep_view();
    let mut sizes: Vec<u32> = Vec::new();
    let mut i: usize = 0;
    assert(sizes@ =~= directory_sizes(all.take(0)));
    while i < names.len()
        invariant
            i <= names@.len(),
            all == names.deep_view(),
            sizes@ == directory_sizes(all.take(i as int)),
        decreases names@.len() - i,
    {
        proof {
            assert(all.take(i + 1).drop_last() =~= all.take(i as int));
            assert(all.take(i + 1).last() == names@[i as int]@);
        }
        if let Some((left, _)) = split_once(names[i].as_str(), 'x') {
            if let Some(size) = parse_unsigned(left.as_str(), u32::MAX as u64) {
                if size >= SMALLEST_CRISP as u64 {
                    insert(&mut sizes, size as u32);
                }
            }
        }
        i = i + 1;
    }
    assert(all.take(i as int) =~= all);
    sizes
}

/// The directories that hold icon themes, the user's own first.
pub open spec fn roots(home: Seq<char>) -> Seq<Seq<char>> {
    seq![home + "/.local/share/icons"@, home + "/.icons"@, "/usr/share/icons"@]
}

/// The directories that hold icon themes, the user's own first.
pub fn icon_roots(home: &str) -> (list: Vec<String>)
    ensures
        list.deep_view() == roots(home@),
{
    let mut list: Vec<String> = Vec::new();
    push_text(&mut list, home.to_owned().concat("/.local/share/icons"));
    push_text(&mut list, home.to_owned().concat("/.icons"));
    push_text(&mut list, "/usr/share/icons".to_owned());
    assert(list.deep_view() =~= roots(home@));
    list
}

/// The icon of a size under a root.
pub open spec fn sized_icon(root: Seq<char>, size: u32, name: Seq<char>) -> Seq<char> {
    root + "/hicolor/"@ + decimal(size as nat) + "x"@ + decimal(size as nat) + "/apps/"@ + name
        + ".png"@
}

/// The icon of no size in particular under a root.
pub open spec fn scalable_icon(root: Seq<char>, name: Seq<char>) -> Seq<char> {
    root + "/hicolor/scalable/apps/"@ + name + ".svg"@
}

/// The places under one root, in the order they are looked at: the sizes as
/// given, then the scalable one.
pub open spec fn under_root(root: Seq<char>, sizes: Seq<u32>, name: Seq<char>) -> Seq<Seq<char>> {
    sizes.map_values(|size: u32| sized_icon(root, size, name)).push(scalable_icon(root, name))
}

/// Where an icon may be, in the order it is looked for. An absolute path stands
/// for itself; a name with a slash in it would climb out of the icon directories,
/// and is nowhere.
pub open spec fn places(name: Seq<char>, home: Seq<char>, sizes: Seq<Seq<u32>>) -> Seq<Seq<char>> {
    if name.len() > 0 && name[0] == '/' {
        seq![name]
    } else if name.len() == 0 || first_at(name, '/', 0) < name.len() {
        seq![]
    } else {
        under_root(roots(home)[0], sizes[0], name) + under_root(roots(home)[1], sizes[1], name)
            + under_root(roots(home)[2], sizes[2], name) + seq![
            "/usr/share/pixmaps/"@ + name + ".svg"@,
            "/usr/share/pixmaps/"@ + name + ".png"@,
        ]
    }
}

/// A relative name with a slash anywhere in it leads nowhere, so no icon name
/// climbs out of the icon directories.
pub proof fn no_icon_climbs_out(name: Seq<char>, home: Seq<char>, sizes: Seq<Seq<u32>>, i: int)
    requires
        name.len() > 0,
        name[0] != '/',
        0 <= i < name.len(),
        name[i] == '/',
    ensures
        places(name, home, sizes).len() == 0,
{
    crate::text::first_at_found(name, '/', 0, i);
}

/// Append the places under one root.
fn add_root(list: &mut Vec<String>, root: &str, sizes: &Vec<u32>, name: &str)
    ensures
        final(list).deep_view() == old(list).deep_view() + under_root(root@, sizes@, name@),
{
    let ghost before = list.deep_view();
    let ghost place = |size: u32| sized_icon(root@, size, name@);
    let mut i: usize = 0;
    assert(before + sizes@.take(0).map_values(place) =~= before);
    while i < sizes.len()
        invariant
            i <= sizes@.len(),
            place == (|size: u32| sized_icon(root@, size, name@)),
            list.deep_view() == before + sizes@.take(i as int).map_values(place),
        decreases sizes@.len() - i,
    {
        let number = format_decimal(sizes[i] as u64);
        let mut path = root.to_owned();
        path.append("/hicolor/");
        path.append(number.as_str());
        path.append("x");
        path.append(number.as_str());
        path.append("/apps/");
        path.append(name);
        path.append(".png");
        push_text(list, path);
        assert(list.deep_view() =~= before + sizes@.take(i + 1).map_values(place));
        i = i + 1;
    }
    assert(sizes@.take(i as int) =~= sizes@);
    let mut path = root.to_owned();
    path.append("/hicolor/scalable/apps/");
    path.append(name);
    path.append(".svg");
    push_text(list, path);
    assert(list.deep_view() =~= before + under_root(root@, sizes@, name@));
}

/// Where an icon may be, in the order it is looked for. `sizes` is what each of
/// the three roots holds.
pub fn icon_places(name: &str, home: &str, sizes: &Vec<Vec<u32>>) -> (list: Vec<String>)
    requires
        sizes@.len() == 3,
    ensures
        list.deep_view() == places(name@, home@, sizes.deep_view()),
{
    let chars = chars_of(name);
    let mut list: Vec<String> = Vec::new();
    if chars.len() > 0 && chars[0] == '/' {
        push_text(&mut list, name.to_owned());
        assert(list.deep_view() =~= seq![name@]);
        return list;
    }
    if chars.len() == 0 || find(&chars, '/', 0) < chars.len() {
        assert(list.deep_view() =~= seq![]);
        return list;
    }
    let dirs = icon_roots(home);
    proof {
        let shown = sizes.deep_view();
        assert(shown[0] =~= sizes@[0]@);
        assert(shown[1] =~= sizes@[1]@);
        assert(shown[2] =~= sizes@[2]@);
        assert(dirs.deep_view().len() == 3);
        assert(dirs.deep_view()[0] == dirs@[0]@);
        assert(dirs.deep_view()[1] == dirs@[1]@);
        assert(dirs.deep_view()[2] == dirs@[2]@);
    }
    add_root(&mut list, dirs[0].as_str(), &sizes[0], name);
    add_root(&mut list, dirs[1].as_str(), &sizes[1], name);
    add_root(&mut list, dirs[2].as_str(), &sizes[2], name);
    push_text(&mut list, "/usr/share/pixmaps/".to_owned().concat(name).concat(".svg"));
    push_text(&mut list, "/usr/share/pixmaps/".to_owned().concat(name).concat(".png"));
    assert(list.deep_view() =~= places(name@, home@, sizes.deep_view()));
    list
}

/// Where an icon name resolves to a file a browser can render: the first of its
/// places that is a file.
pub fn icon_path<F: Fn(&String) -> bool>(
    name: &str,
    home: &str,
    sizes: &Vec<Vec<u32>>,
    is_file: F,
) -> (path: Option<String>)
    requires
        sizes@.len() == 3,
        forall|place: &String| call_requires(is_file, (place,)),
    ensures
        match path {
            Some(found) => exists|i: int, place: &String|
                {
                    &&& 0 <= i < places(name@, home@, sizes.deep_view()).len()
                    &&& #[trigger] places(name@, home@, sizes.deep_view())[i] == found@
                    &&& place@ == found@
                    &&& #[trigger] call_ensures(is_file, (place,), true)
                    &&& forall|j: int|
                        0 <= j < i ==> refused(is_file, #[trigger] places(
                            name@,
                            home@,
                            sizes.deep_view(),
                        )[j])
                },
            None => forall|j: int|
                0 <= j < places(name@, home@, sizes.deep_view()).len() ==> refused(
                    is_file,
                    #[trigger] places(name@, home@, sizes.deep_view())[j],
                ),
        },
{
    let list = icon_places(name, home, sizes);
    let ghost all = places(name@, home@, sizes.deep_view());
    let mut i: usize = 0;
    while i < list.len()
        invariant
            i <= list@.len(),
            all == list.deep_view(),
            forall|place: &String| call_requires(is_file, (place,)),
            forall|j: int| 0 <= j < i ==> refused(is_file, #[trigger] all[j]),
            all == places(name@, home@, sizes.deep_view()),
        decreases list@.len() - i,
    {
        assert(all[i as int] == list@[i as int]@);
        if is_file(&list[i]) {
            return Some(list[i].clone());
        }
        assert(refused(is_file, all[i as int]));
        i = i + 1;
    }
    None
}

/// The test said that there is no file of this path.
pub open spec fn refused<F: Fn(&String) -> bool>(is_file: F, path: Seq<char>) -> bool {
    exists|place: &String| place@ == path && #[trigger] call_ensures(is_file, (place,), false)
}

/// An icon as a `data:` URL.
pub open spec fn data_url(mime: Seq<char>, bytes: Seq<u8>) -> Seq<char> {
    "data:"@ + mime + ";base64,"@ + encoded(bytes)
}

/// The type of a picture that a file of this path holds.
pub open spec fn icon_mime(path: Seq<char>) -> Seq<char> {
    if has_extension(path, "svg"@) {
        "image/svg+xml"@
    } else {
        "image/png"@
    }
}

/// An icon as a `data:` URL, ready to hang on an image element; nothing for one
/// that is empty or too large.
///
/// Inlined rather than fetched: the compositor speaks one WebSocket and serves
/// no HTTP, and the whole listing is one message sent once.
pub fn icon_data_url(path: &str, bytes: &[u8]) -> (url: Option<String>)
    ensures
        url.deep_view() == (if bytes@.len() == 0 || bytes@.len() > LARGEST_ICON {
            None
        } else {
            Some(data_url(icon_mime(path@), bytes@))
        }),
{
    if bytes.len() == 0 || bytes.len() > LARGEST_ICON {
        return None;
    }
    let mut url = "data:".to_owned();
    if is_of_type(path, "svg") {
        url.append("image/svg+xml");
    } else {
        url.append("image/png");
    }
    url.append(";base64,");
    url.append(base64(bytes).as_str());
    Some(url)
}

/// A directory is of the size its name begins with, and counts where that is
/// still crisp.
pub proof fn a_directory_says_its_size(size: u32, rest: Seq<char>)
    ensures
        directory_size(decimal(size as nat).push('x') + rest) == (if size >= 48 {
            Some(size)
        } else {
            None
        }),
        !rest.contains('x') ==> directory_size(rest) is None,
{
    let digits = decimal(size as nat);
    decimal_reads_back(size as nat);
    if digits.contains('x') {
        let k = choose|k: int| 0 <= k < digits.len() && digits[k] == 'x';
        assert('0' <= digits[k] <= '9');
    }
    a_text_splits_at_the_first(digits.push('x') + rest, 'x', digits, rest);
    a_text_splits_at_the_first(rest, 'x', digits, rest);
    a_written_number_is_read_back(size as nat, u32::MAX as int);
}

/// Every directory that counts adds its size to those that are tried, and no
/// other does.
pub proof fn every_crisp_size_is_tried(names: Seq<Seq<char>>, name: Seq<char>)
    ensures
        match directory_size(name) {
            Some(size) => directory_sizes(names.push(name)).to_multiset() == directory_sizes(
                names,
            ).to_multiset().insert(size),
            None => directory_sizes(names.push(name)) == directory_sizes(names),
        },
{
    assert(names.push(name).drop_last() =~= names);
    sizes_rise(names);
    if let Some(size) = directory_size(name) {
        inserting_keeps_rising(directory_sizes(names), size);
    }
}

/// An icon is looked for under the user's own directories before the system's,
/// in each of them by size as they come and the scalable one last, and among the
/// loose pictures after all of those. One that names its own path is looked for
/// there and nowhere else.
pub proof fn the_users_own_icon_comes_first(
    name: Seq<char>,
    home: Seq<char>,
    sizes: Seq<Seq<u32>>,
    k: int,
)
    requires
        sizes.len() == 3,
        name.len() > 0,
        !name.contains('/'),
    ensures
        ({
            let list = places(name, home, sizes);
            let own = sizes[0].len() + 1;
            let both = own + sizes[1].len() + 1;
            let all = both + sizes[2].len() + 1;
            &&& list.len() == all + 2
            &&& 0 <= k < sizes[0].len() ==> list[k] == home + "/.local/share/icons"@ + "/hicolor/"@
                + decimal(sizes[0][k] as nat) + "x"@ + decimal(sizes[0][k] as nat) + "/apps/"@ + name
                + ".png"@
            &&& list[own - 1] == home + "/.local/share/icons"@ + "/hicolor/scalable/apps/"@ + name
                + ".svg"@
            &&& 0 <= k < sizes[1].len() ==> list[own + k] == sized_icon(
                home + "/.icons"@,
                sizes[1][k],
                name,
            )
            &&& 0 <= k < sizes[2].len() ==> list[both + k] == sized_icon(
                "/usr/share/icons"@,
                sizes[2][k],
                name,
            )
            &&& list[all as int] == "/usr/share/pixmaps/"@ + name + ".svg"@
            &&& list[all as int + 1] == "/usr/share/pixmaps/"@ + name + ".png"@
        }),
        places(seq!['/'] + name, home, sizes) == seq![seq!['/'] + name],
        places(Seq::empty(), home, sizes).len() == 0,
{
    first_at_bounds(name, '/', 0);
    if first_at(name, '/', 0) < name.len() {
        assert(name.contains(name[first_at(name, '/', 0)]));
    }
    assert(name.contains(name[0]));
    let one = under_root(roots(home)[0], sizes[0], name);
    let two = under_root(roots(home)[1], sizes[1], name);
    let three = under_root(roots(home)[2], sizes[2], name);
    let list = places(name, home, sizes);
    let own = one.len();
    let both = own + two.len();
    let all = both + three.len();
    if 0 <= k < sizes[0].len() {
        assert(list[k] == one[k]);
    }
    assert(list[own - 1] == one[own - 1]);
    if 0 <= k < sizes[1].len() {
        assert(list[own + k] == two[k]);
    }
    if 0 <= k < sizes[2].len() {
        assert(list[both + k] == three[k]);
    }
}

/// An icon is sent unless it is empty or too large, as the kind of picture its
/// file is.
pub proof fn an_icon_is_sent_as_what_it_is(path: &str, bytes: &[u8], url: Option<String>)
    requires
        call_ensures(icon_data_url, (path, bytes), url),
    ensures
        url is Some <==> 0 < bytes@.len() <= 262_144,
        url matches Some(text) ==> text@ == "data:"@ + (if has_extension(path@, "svg"@) {
            "image/svg+xml"@
        } else {
            "image/png"@
        }) + ";base64,"@ + encoded(bytes@),
{
}

/// An icon is looked for under its own name: a picture of a size as a PNG in the
/// directory of that size, one of no size as an SVG, both under the root.
pub proof fn an_icon_is_a_file_of_its_name(root: Seq<char>, size: u32, name: Seq<char>)
    requires
        name.len() > 0,
        !name.contains('/'),
    ensures
        has_extension(sized_icon(root, size, name), "png"@),
        stem_of(sized_icon(root, size, name)) == name,
        begins_with(
            sized_icon(root, size, name),
            root + "/hicolor/"@ + decimal(size as nat) + "x"@ + decimal(size as nat) + "/"@,
        ),
        has_extension(scalable_icon(root, name), "svg"@),
        stem_of(scalable_icon(root, name)) == name,
        begins_with(scalable_icon(root, name), root + "/hicolor/"@),
{
    reveal_strlit(".png");
    reveal_strlit("png");
    reveal_strlit(".svg");
    reveal_strlit("svg");
    reveal_strlit("..");
    reveal_strlit("/");
    reveal_strlit("/apps/");
    reveal_strlit("/hicolor/");
    reveal_strlit("/hicolor/scalable/apps/");
    let front = root + "/hicolor/"@ + decimal(size as nat) + "x"@ + decimal(size as nat);
    let directory = front + "/apps"@;
    reveal_strlit("/apps");
    let path = sized_icon(root, size, name);
    assert("/apps"@.push('/') =~= "/apps/"@);
    assert(path =~= directory.push('/') + (name.push('.') + "png"@));
    assert((name.push('.') + "png"@).len() > 2);
    a_file_goes_by_its_last_name(directory, name, "png"@);
    assert(path.take(front.len() as int + 1) =~= front + "/"@);
    let other = root + "/hicolor/scalable/apps"@;
    reveal_strlit("/hicolor/scalable/apps");
    let place = scalable_icon(root, name);
    assert("/hicolor/scalable/apps"@.push('/') =~= "/hicolor/scalable/apps/"@);
    assert(place =~= other.push('/') + (name.push('.') + "svg"@));
    assert((name.push('.') + "svg"@).len() > 2);
    a_file_goes_by_its_last_name(other, name, "svg"@);
    assert(place.take(root.len() as int + 9) =~= root + "/hicolor/"@);
}

} // verus!
