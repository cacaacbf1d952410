//! Paths, component by component.
//!
//! Two paths are the same, and one comes before another, by what they are made
//! of: repeated and trailing slashes count for nothing, and neither does a `.`
//! but at the very beginning.

use crate::text::{
    chars_of, comes_first, is_in_order, order_is_antisymmetric, order_is_total,
    order_is_transitive, same, slice_of, text_of,
};
use vstd::prelude::*;

verus! {

/// One component of a path.
#[derive(Debug)]
pub enum Component {
    /// The slash that a path begins with.
    Root,
    /// The `.` that a path begins with.
    Here,
    /// A `..`.
    Up,
    /// A name.
    Normal(String),
}

/// What a [`Component`] says.
#[verifier::ext_equal]
pub enum ComponentView {
    Root,
    Here,
    Up,
    Normal(Seq<char>),
}

impl DeepView for Component {
    type V = ComponentView;

    open spec fn deep_view(&self) -> ComponentView {
        match self {
            Component::Root => ComponentView::Root,
            Component::Here => ComponentView::Here,
            Component::Up => ComponentView::Up,
            Component::Normal(name) => ComponentView::Normal(name@),
        }
    }
}

/// What stands between the slashes of a text; `part` is what is being read.
pub open spec fn parts_from(text: Seq<char>, part: Seq<char>) -> Seq<Seq<char>>
    decreases text.len(),
{
    if text.len() == 0 {
        seq![part]
    } else if text[0] == '/' {
        seq![part] + parts_from(text.drop_first(), seq![])
    } else {
        parts_from(text.drop_first(), part.push(text[0]))
    }
}

/// What stands between the slashes of a path, before the first and behind the
/// last of them.
pub open spec fn parts(path: Seq<char>) -> Seq<Seq<char>> {
    parts_from(path, seq![])
}

/// The components that these parts are.
pub open spec fn components_in(list: Seq<Seq<char>>) -> Seq<ComponentView>
    decreases list.len(),
{
    if list.len() == 0 {
        seq![]
    } else {
        let before = components_in(list.drop_last());
        let part = list.last();
        if part.len() == 0 || part == "."@ {
            before
        } else if part == ".."@ {
            before.push(ComponentView::Up)
        } else {
            before.push(ComponentView::Normal(part))
        }
    }
}

/// The components of a path.
pub open spec fn components(path: Seq<char>) -> Seq<ComponentView> {
    let named = components_in(parts(path));
    if path.len() > 0 && path[0] == '/' {
        seq![ComponentView::Root] + named
    } else if parts(path)[0] == "."@ {
        seq![ComponentView::Here] + named
    } else {
        named
    }
}

/// Put one more component at the end of a list.
fn push_component(list: &mut Vec<Component>, component: Component)
    ensures
        final(list).deep_view() == old(list).deep_view().push(component.deep_view()),
{
    list.push(component);
    assert(list.deep_view() =~= old(list).deep_view().push(component.deep_view()));
}

/// What stands between the slashes of a path.
fn split_at_slashes(path: &str) -> (list: Vec<String>)
    ensures
        list.deep_view() == parts(path@),
{
    let chars = chars_of(path);
    let mut list: Vec<String> = Vec::new();
    let mut part: Vec<char> = Vec::new();
    let mut i: usize = 0;
    proof {
        assert(path@.skip(0) =~= path@);
        assert(part@ =~= seq![]);
        assert(list.deep_view() + parts(path@) =~= parts(path@));
    }
    while i < chars.len()
        invariant
            i <= chars@.len(),
            chars@ == path@,
            list.deep_view() + parts_from(path@.skip(i as int), part@) == parts(path@),
        decreases chars@.len() - i,
    {
        let ghost rest = path@.skip(i as int);
        let ghost before = list.deep_view();
        let ghost read = part@;
        assert(rest.drop_first() =~= path@.skip(i + 1));
        if chars[i] == '/' {
            let text = text_of(part.as_slice());
            list.push(text);
            part = Vec::new();
            proof {
                assert(list.deep_view() =~= before.push(read));
                assert(part@ =~= seq![]);
                let others = parts_from(rest.drop_first(), seq![]);
                assert(before.push(read) + others =~= before + (seq![read] + others));
            }
        } else {
            part.push(chars[i]);
        }
        i = i + 1;
    }
    assert(path@.skip(i as int) =~= Seq::<char>::empty());
    let ghost before = list.deep_view();
    let text = text_of(part.as_slice());
    list.push(text);
    proof {
        assert(list.deep_view() =~= before.push(part@));
        assert(before.push(part@) =~= before + seq![part@]);
    }
    list
}

proof fn a_path_has_parts(text: Seq<char>, part: Seq<char>)
    ensures
        parts_from(text, part).len() > 0,
    decreases text.len(),
{
    if text.len() > 0 && text[0] != '/' {
        a_path_has_parts(text.drop_first(), part.push(text[0]));
    }
}

/// The components of a path.
pub fn components_of(path: &str) -> (list: Vec<Component>)
    ensures
        list.deep_view() == components(path@),
{
    let chars = chars_of(path);
    let split = split_at_slashes(path);
    let ghost all = split.deep_view();
    let mut list: Vec<Component> = Vec::new();
    assert(list.deep_view() =~= seq![]);
    proof {
        a_path_has_parts(path@, seq![]);
        assert(all[0] == split@[0]@);
    }
    if chars.len() > 0 && chars[0] == '/' {
        push_component(&mut list, Component::Root);
    } else if same(split[0].as_str(), ".") {
        push_component(&mut list, Component::Here);
    }
    let ghost head = list.deep_view();
    let mut i: usize = 0;
    assert(head + components_in(all.take(0)) =~= head);
    while i < split.len()
        invariant
            i <= split@.len(),
            all == split.deep_view(),
            list.deep_view() == head + components_in(all.take(i as int)),
        decreases split@.len() - i,
    {
        let ghost before = components_in(all.take(i as int));
        proof {
            assert(all.take(i + 1).drop_last() =~= all.take(i as int));
            assert(all.take(i + 1).last() == split@[i as int]@);
        }
        let part = split[i].as_str();
        if part.unicode_len() == 0 || same(part, ".") {
        } else if same(part, "..") {
            push_component(&mut list, Component::Up);
            assert((head + before).push(ComponentView::Up) =~= head + before.push(
                ComponentView::Up,
            ));
        } else {
            push_component(&mut list, Component::Normal(split[i].clone()));
            let ghost name = ComponentView::Normal(part@);
            assert((head + before).push(name) =~= head + before.push(name));
        }
        i = i + 1;
    }
    assert(all.take(i as int) =~= all);
    assert(list.deep_view() =~= components(path@));
    list
}

/// Where a component stands among those of other kinds.
pub open spec fn rank(component: ComponentView) -> int {
    match component {
        ComponentView::Root => 0,
        ComponentView::Here => 1,
        ComponentView::Up => 2,
        ComponentView::Normal(_) => 3,
    }
}

/// Whether one component comes before another, or is the same: by its kind, and
/// names character by character.
pub open spec fn component_first(one: ComponentView, other: ComponentView) -> bool {
    match (one, other) {
        (ComponentView::Normal(a), ComponentView::Normal(b)) => comes_first(a, b),
        _ => rank(one) <= rank(other),
    }
}

/// Whether one list of components comes before another, or is the same.
pub open spec fn components_first(one: Seq<ComponentView>, other: Seq<ComponentView>) -> bool
    decreases one.len(),
{
    if one.len() == 0 {
        true
    } else if other.len() == 0 {
        false
    } else if one[0] == other[0] {
        components_first(one.drop_first(), other.drop_first())
    } else {
        component_first(one[0], other[0])
    }
}

/// Whether one path comes before another, or is the same.
pub open spec fn path_first(one: Seq<char>, other: Seq<char>) -> bool {
    components_first(components(one), components(other))
}

fn rank_of(component: &Component) -> (place: u8)
    ensures
        place == rank(component.deep_view()),
{
    match component {
        Component::Root => 0,
        Component::Here => 1,
        Component::Up => 2,
        Component::Normal(_) => 3,
    }
}

/// Whether two components are the same.
fn same_component(one: &Component, other: &Component) -> (equal: bool)
    ensures
        equal == (one.deep_view() == other.deep_view()),
{
    match (one, other) {
        (Component::Normal(a), Component::Normal(b)) => same(a.as_str(), b.as_str()),
        _ => rank_of(one) == rank_of(other),
    }
}

/// Whether one component comes before another, or is the same.
fn is_component_first(one: &Component, other: &Component) -> (first: bool)
    ensures
        first == component_first(one.deep_view(), other.deep_view()),
{
    match (one, other) {
        (Component::Normal(a), Component::Normal(b)) => is_in_order(a.as_str(), b.as_str()),
        _ => rank_of(one) <= rank_of(other),
    }
}

/// Whether one path comes before another, or is the same.
pub fn is_path_first(one: &str, other: &str) -> (first: bool)
    ensures
        first == path_first(one@, other@),
{
    let a = components_of(one);
    let b = components_of(other);
    let ghost all = a.deep_view();
    let ghost others = b.deep_view();
    let mut i: usize = 0;
    proof {
        assert(all.skip(0) =~= all);
        assert(others.skip(0) =~= others);
    }
    loop
        invariant
            all == a.deep_view(),
            others == b.deep_view(),
            i <= a@.len(),
            i <= b@.len(),
            all == components(one@),
            others == components(other@),
            components_first(all, others) == components_first(
                all.skip(i as int),
                others.skip(i as int),
            ),
        decreases a@.len() - i,
    {
        if i == a.len() {
            return true;
        }
        if i == b.len() {
            return false;
        }
        proof {
            assert(all.skip(i as int)[0] == a@[i as int].deep_view());
            assert(others.skip(i as int)[0] == b@[i as int].deep_view());
            assert(all.skip(i as int).drop_first() =~= all.skip(i + 1));
            assert(others.skip(i as int).drop_first() =~= others.skip(i + 1));
        }
        if !same_component(&a[i], &b[i]) {
            return is_component_first(&a[i], &b[i]);
        }
        i = i + 1;
    }
}

/// Whether two paths are the same.
pub fn is_same_path(one: &str, other: &str) -> (equal: bool)
    ensures
        equal == (components(one@) == components(other@)),
{
    let a = components_of(one);
    let b = components_of(other);
    if a.len() != b.len() {
        assert(a.deep_view().len() != b.deep_view().len());
        return false;
    }
    let mut i: usize = 0;
    while i < a.len()
        invariant
            i <= a@.len(),
            a@.len() == b@.len(),
            a.deep_view() == components(one@),
            b.deep_view() == components(other@),
            forall|j: int| 0 <= j < i ==> a.deep_view()[j] == b.deep_view()[j],
        decreases a@.len() - i,
    {
        assert(a.deep_view()[i as int] == a@[i as int].deep_view());
        assert(b.deep_view()[i as int] == b@[i as int].deep_view());
        if !same_component(&a[i], &b[i]) {
            return false;
        }
        i = i + 1;
    }
    assert(a.deep_view() =~= b.deep_view());
    true
}

/// A path's own name: its last component, where that is a name.
pub open spec fn own_name(path: Seq<char>) -> Option<Seq<char>> {
    let list = components(path);
    if list.len() == 0 {
        None
    } else {
        match list.last() {
            ComponentView::Normal(name) => Some(name),
            _ => None,
        }
    }
}

/// A path's own name.
pub fn file_name(path: &str) -> (name: Option<String>)
    ensures
        name.deep_view() == own_name(path@),
{
    let list = components_of(path);
    if list.len() == 0 {
        return None;
    }
    let last: usize = list.len() - 1;
    assert(components(path@).last() == list@[last as int].deep_view());
    match &list[last] {
        Component::Normal(name) => Some(name.clone()),
        _ => None,
    }
}

/// Where the last dot among the first `end` characters of a name stands, or zero
/// where there is none.
pub open spec fn last_dot(name: Seq<char>, end: int) -> int
    decreases end,
{
    if end <= 0 {
        0
    } else if name[end - 1] == '.' {
        end - 1
    } else {
        last_dot(name, end - 1)
    }
}

/// Where the last dot of a name stands, or zero where there is none.
fn find_last_dot(name: &Vec<char>) -> (at: usize)
    ensures
        at == last_dot(name@, name@.len() as int),
        name@.len() > 0 ==> at < name@.len(),
{
    let mut end: usize = name.len();
    while end > 0 && name[end - 1] != '.'
        invariant
            end <= name@.len(),
            last_dot(name@, name@.len() as int) == last_dot(name@, end as int),
        decreases end,
    {
        end = end - 1;
    }
    if end > 0 {
        end - 1
    } else {
        0
    }
}

/// A file's extension: what follows the last dot of its own name. A name's first
/// dot hides the file and begins no extension.
pub open spec fn extension_of(path: Seq<char>) -> Option<Seq<char>> {
    match own_name(path) {
        None => None,
        Some(name) => {
            let at = last_dot(name, name.len() as int);
            if at > 0 {
                Some(name.skip(at + 1))
            } else {
                None
            }
        },
    }
}

/// Whether a file of this path is one of these.
pub open spec fn has_extension(path: Seq<char>, extension: Seq<char>) -> bool {
    extension_of(path) == Some(extension)
}

/// Whether a file of this path is one of these.
pub fn is_of_type(path: &str, extension: &str) -> (result: bool)
    ensures
        result == has_extension(path@, extension@),
{
    match file_name(path) {
        None => false,
        Some(own) => {
            let name = chars_of(own.as_str());
            let at: usize = find_last_dot(&name);
            if at == 0 {
                return false;
            }
            let found = slice_of(&name, at + 1, name.len());
            assert(found@ =~= name@.skip(at + 1));
            same(found.as_str(), extension)
        },
    }
}

/// A file's own name without its last extension; nothing where the path names no
/// file.
pub open spec fn stem_of(path: Seq<char>) -> Seq<char> {
    match own_name(path) {
        None => seq![],
        Some(name) => {
            let at = last_dot(name, name.len() as int);
            if at > 0 {
                name.take(at)
            } else {
                name
            }
        },
    }
}

/// A file's own name without its last extension.
pub fn file_stem(path: &str) -> (stem: String)
    ensures
        stem@ == stem_of(path@),
{
    match file_name(path) {
        None => {
            let nothing = String::new();
            assert(nothing@ =~= seq![]);
            nothing
        },
        Some(own) => {
            let name = chars_of(own.as_str());
            let at: usize = find_last_dot(&name);
            if at == 0 {
                return own;
            }
            let stem = slice_of(&name, 0, at);
            assert(stem@ =~= name@.take(at as int));
            stem
        },
    }
}

proof fn last_dot_is_a_dot(name: Seq<char>, end: int)
    requires
        0 <= end <= name.len(),
    ensures
        0 <= last_dot(name, end),
        last_dot(name, end) > 0 ==> last_dot(name, end) < end && name[last_dot(name, end)] == '.',
    decreases end,
{
    if end > 0 && name[end - 1] != '.' {
        last_dot_is_a_dot(name, end - 1);
    }
}

/// A file's stem and its extension make up its name.
pub proof fn stem_and_extension_make_the_name(path: Seq<char>, extension: Seq<char>)
    requires
        has_extension(path, extension),
    ensures
        own_name(path) == Some(stem_of(path) + seq!['.'] + extension),
        stem_of(path).len() > 0,
{
    let name = own_name(path)->0;
    last_dot_is_a_dot(name, name.len() as int);
    assert(name =~= stem_of(path) + seq!['.'] + extension);
}

/// Of any two paths one comes first, and each only where they are the same.
pub proof fn paths_are_ordered(one: Seq<ComponentView>, other: Seq<ComponentView>)
    ensures
        components_first(one, other) || components_first(other, one),
        components_first(one, other) && components_first(other, one) ==> one == other,
    decreases one.len(),
{
    if one.len() == 0 || other.len() == 0 {
        if one.len() == other.len() {
            assert(one =~= other);
        }
    } else if one[0] == other[0] {
        paths_are_ordered(one.drop_first(), other.drop_first());
        if one.drop_first() == other.drop_first() {
            assert(one =~= seq![one[0]] + one.drop_first());
            assert(other =~= seq![other[0]] + other.drop_first());
        }
    } else {
        if let (ComponentView::Normal(a), ComponentView::Normal(b)) = (one[0], other[0]) {
            order_is_total(a, b);
            if comes_first(a, b) && comes_first(b, a) {
                order_is_antisymmetric(a, b);
            }
        }
    }
}

/// A path that comes before one that comes before a third comes before that one.
pub proof fn path_order_is_transitive(
    a: Seq<ComponentView>,
    b: Seq<ComponentView>,
    c: Seq<ComponentView>,
)
    requires
        components_first(a, b),
        components_first(b, c),
    ensures
        components_first(a, c),
    decreases a.len(),
{
    if a.len() > 0 {
        if a[0] == b[0] && b[0] == c[0] {
            path_order_is_transitive(a.drop_first(), b.drop_first(), c.drop_first());
        } else if let (
            ComponentView::Normal(x),
            ComponentView::Normal(y),
            ComponentView::Normal(z),
        ) = (a[0], b[0], c[0]) {
            if x != y && y != z {
                order_is_transitive(x, y, z);
                if x == z {
                    order_is_antisymmetric(x, y);
                }
            }
        }
    }
}

proof fn parts_of_more(path: Seq<char>, part: Seq<char>, name: Seq<char>)
    requires
        !name.contains('/'),
    ensures
        parts_from(path.push('/') + name, part) == parts_from(path, part).push(name),
    decreases path.len(),
{
    let more = path.push('/') + name;
    if path.len() == 0 {
        assert(more.drop_first() =~= name);
        unbroken_part(name, seq![]);
        assert(Seq::<char>::empty() + name =~= name);
        assert(parts_from(more, part) =~= parts_from(path, part).push(name));
    } else {
        let rest = path.drop_first();
        assert(more.drop_first() =~= rest.push('/') + name);
        assert(more[0] == path[0]);
        if path[0] == '/' {
            parts_of_more(rest, seq![], name);
            assert(parts_from(more, part) =~= parts_from(path, part).push(name));
        } else {
            parts_of_more(rest, part.push(path[0]), name);
        }
    }
}

proof fn unbroken_part(text: Seq<char>, part: Seq<char>)
    requires
        !text.contains('/'),
    ensures
        parts_from(text, part) == seq![part + text],
    decreases text.len(),
{
    if text.len() == 0 {
        assert(part + text =~= part);
    } else {
        assert(text.contains(text[0]));
        let rest = text.drop_first();
        assert forall|i: int| 0 <= i < rest.len() implies rest[i] != '/' by {
            assert(rest[i] == text[i + 1]);
            assert(text.contains(text[i + 1]));
        }
        unbroken_part(rest, part.push(text[0]));
        assert(part.push(text[0]) + rest =~= part + text);
    }
}

/// A file goes by what stands behind the last slash of its path, whatever
/// directory it is in; and its extension is what stands behind the last dot of
/// that, unless the name only begins with it.
pub proof fn a_file_goes_by_its_last_name(
    directory: Seq<char>,
    stem: Seq<char>,
    extension: Seq<char>,
)
    requires
        stem.len() > 0,
        !stem.contains('/'),
        !extension.contains('/'),
        !extension.contains('.'),
        stem.push('.') + extension != ".."@,
    ensures
        ({
            let name = stem.push('.') + extension;
            let path = directory.push('/') + name;
            &&& own_name(path) == Some(name)
            &&& extension_of(path) == Some(extension)
            &&& stem_of(path) == stem
        }),
{
    let name = stem.push('.') + extension;
    let path = directory.push('/') + name;
    assert forall|i: int| 0 <= i < name.len() implies name[i] != '/' by {
        if i < stem.len() {
            assert(stem.contains(stem[i]));
        } else if i > stem.len() {
            assert(extension.contains(extension[i - stem.len() - 1]));
        }
    }
    parts_of_more(directory, seq![], name);
    let list = parts(path);
    assert(list == parts(directory).push(name));
    assert(list.drop_last() =~= parts(directory));
    reveal_strlit(".");
    assert(name.len() >= 2 && "."@.len() == 1);
    assert(components_in(list) == components_in(parts(directory)).push(
        ComponentView::Normal(name),
    ));
    assert(components(path).last() == ComponentView::Normal(name));
    last_dot_stands_there(stem, extension, extension.len() as int);
    assert(name.skip(stem.len() as int + 1) =~= extension);
    assert(name.take(stem.len() as int) =~= stem);
}

proof fn last_dot_stands_there(stem: Seq<char>, extension: Seq<char>, n: int)
    requires
        0 <= n <= extension.len(),
        !extension.contains('.'),
    ensures
        last_dot(stem.push('.') + extension, stem.len() + 1 + n) == stem.len(),
    decreases n,
{
    let name = stem.push('.') + extension;
    if n > 0 {
        assert(name[stem.len() + n] == extension[n - 1]);
        assert(extension.contains(extension[n - 1]));
        last_dot_stands_there(stem, extension, n - 1);
    } else {
        assert(name[stem.len() as int] == '.');
    }
}

} // verus!
