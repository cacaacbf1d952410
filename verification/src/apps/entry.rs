//! One `.desktop` file.

use crate::apps::words::{is_field_code, joined, strip_field_codes, words};
use crate::text::{
    a_text_splits_at_the_first, lines, lines_of, same, split_at_first, split_once, trim, trimmed,
};
use vstd::prelude::*;

verus! {

/// What the launcher takes from a `.desktop` file.
#[derive(Debug)]
pub struct Entry {
    pub name: String,
    /// The command, its field codes dropped.
    pub command: String,
    pub icon: Option<String>,
    /// The file's own name, without its directory and its extension.
    pub app_id: String,
}

/// What an [`Entry`] says.
#[verifier::ext_equal]
pub struct EntryView {
    pub name: Seq<char>,
    pub command: Seq<char>,
    pub icon: Option<Seq<char>>,
    pub app_id: Seq<char>,
}

impl DeepView for Entry {
    type V = EntryView;

    open spec fn deep_view(&self) -> EntryView {
        EntryView {
            name: self.name@,
            command: self.command@,
            icon: self.icon.deep_view(),
            app_id: self.app_id@,
        }
    }
}

/// What has been read of a `.desktop` file so far.
#[verifier::ext_equal]
pub struct Reading {
    /// Whether the lines being read are those of the entry itself.
    pub in_entry: bool,
    pub name: Option<Seq<char>>,
    pub command: Option<Seq<char>>,
    pub icon: Option<Seq<char>>,
    /// Whether something said that this does not belong in a menu.
    pub refused: bool,
}

/// The first value given for a key counts.
pub open spec fn first_of(held: Option<Seq<char>>, value: Seq<char>) -> Option<Seq<char>> {
    if held is None {
        Some(trimmed(value))
    } else {
        held
    }
}

impl Reading {
    /// Nothing has been read.
    pub open spec fn start() -> Reading {
        Reading { in_entry: false, name: None, command: None, icon: None, refused: false }
    }

    /// What is known after one more line.
    pub open spec fn after(self, line: Seq<char>) -> Reading {
        let text = trimmed(line);
        if text.len() > 0 && text[0] == '[' {
            Reading { in_entry: text == "[Desktop Entry]"@, ..self }
        } else if !self.in_entry {
            self
        } else {
            match split_at_first(text, '=') {
                None => self,
                Some((key, value)) => if key == "Name"@ {
                    Reading { name: first_of(self.name, value), ..self }
                } else if key == "Exec"@ {
                    Reading { command: first_of(self.command, value), ..self }
                } else if key == "Icon"@ {
                    Reading { icon: first_of(self.icon, value), ..self }
                } else if key == "NoDisplay"@ || key == "Hidden"@ || key == "Terminal"@ {
                    Reading { refused: self.refused || value == "true"@, ..self }
                } else if key == "Type"@ {
                    Reading { refused: self.refused || trimmed(value) != "Application"@, ..self }
                } else {
                    self
                },
            }
        }
    }

    /// What is known after some lines.
    pub open spec fn after_all(list: Seq<Seq<char>>) -> Reading
        decreases list.len(),
    {
        if list.len() == 0 {
            Reading::start()
        } else {
            Reading::after_all(list.drop_last()).after(list.last())
        }
    }

    /// What the launcher takes from the file: nothing where it was refused, and
    /// nothing without a name and a command.
    pub open spec fn entry(self, app_id: Seq<char>) -> Option<EntryView> {
        if self.refused || self.name is None || self.command is None {
            None
        } else {
            let command = joined(
                words(self.command->0).filter(|word: Seq<char>| !is_field_code(word)),
            );
            if self.name->0.len() == 0 || command.len() == 0 {
                None
            } else {
                Some(EntryView { name: self.name->0, command, icon: self.icon, app_id })
            }
        }
    }
}

/// What the launcher takes from a `.desktop` file of this name and text.
pub open spec fn entry_of(app_id: Seq<char>, text: Seq<char>) -> Option<EntryView> {
    Reading::after_all(lines(text)).entry(app_id)
}

/// Once refused, a file stays refused, whatever else it says.
proof fn refusal_is_final(list: Seq<Seq<char>>, n: int)
    requires
        0 <= n <= list.len(),
        Reading::after_all(list.take(n)).refused,
    ensures
        Reading::after_all(list).refused,
    decreases list.len() - n,
{
    if n < list.len() {
        assert(list.take(n + 1).drop_last() =~= list.take(n));
        refusal_is_final(list, n + 1);
    } else {
        assert(list.take(n) =~= list);
    }
}

/// Pull the name and command out of one `.desktop` file.
///
/// Returns `None` for anything that should not appear in a menu: entries that
/// are not applications, ones marked hidden, and ones needing a terminal, which
/// would want a terminal emulator wrapped around them.
pub fn read_entry(app_id: String, text: &str) -> (entry: Option<Entry>)
    ensures
        entry.deep_view() == entry_of(app_id@, text@),
{
    let list = lines_of(text);
    let ghost all = list.deep_view();
    let mut name: Option<String> = None;
    let mut command: Option<String> = None;
    let mut icon: Option<String> = None;
    let mut in_entry = false;
    let mut i: usize = 0;
    assert(all.take(0) =~= seq![]);
    while i < list.len()
        invariant
            i <= list@.len(),
            all == list.deep_view(),
            all == lines(text@),
            Reading::after_all(all.take(i as int)) == (Reading {
                in_entry,
                name: name.deep_view(),
                command: command.deep_view(),
                icon: icon.deep_view(),
                refused: false,
            }),
        decreases list@.len() - i,
    {
        proof {
            assert(all.take(i + 1).drop_last() =~= all.take(i as int));
            assert(all.take(i + 1).last() == list@[i as int]@);
        }
        let line = trim(list[i].as_str());
        if !line.as_str().is_empty() && line.as_str().get_char(0) == '[' {
            in_entry = same(line.as_str(), "[Desktop Entry]");
        } else if in_entry {
            if let Some((key, value)) = split_once(line.as_str(), '=') {
                if same(key.as_str(), "Name") {
                    if name.is_none() {
                        name = Some(trim(value.as_str()));
                    }
                } else if same(key.as_str(), "Exec") {
                    if command.is_none() {
                        command = Some(trim(value.as_str()));
                    }
                } else if same(key.as_str(), "Icon") {
                    if icon.is_none() {
                        icon = Some(trim(value.as_str()));
                    }
                } else if same(key.as_str(), "NoDisplay") || same(key.as_str(), "Hidden") || same(
                    key.as_str(),
                    "Terminal",
                ) {
                    if same(value.as_str(), "true") {
                        proof {
                            refusal_is_final(all, i + 1);
                        }
                        return None;
                    }
                } else if same(key.as_str(), "Type") {
                    if !same(trim(value.as_str()).as_str(), "Application") {
                        proof {
                            refusal_is_final(all, i + 1);
                        }
                        return None;
                    }
                }
            }
        }
        i = i + 1;
    }
    assert(all.take(i as int) =~= all);
    match (name, command) {
        (Some(name), Some(command)) => {
            let command = strip_field_codes(command.as_str());
            if name.as_str().is_empty() || command.as_str().is_empty() {
                None
            } else {
                Some(Entry { name, command, icon, app_id })
            }
        },
        _ => None,
    }
}

/// Does a line open a section?
pub open spec fn opens_a_section(line: Seq<char>) -> bool {
    trimmed(line).len() > 0 && trimmed(line)[0] == '['
}

/// Is the section that is open after the first `n` lines the entry's own?
pub open spec fn in_own_section(list: Seq<Seq<char>>, n: int) -> bool {
    exists|h: int|
        0 <= h < n && trimmed(#[trigger] list[h]) == "[Desktop Entry]"@ && forall|j: int|
            h < j < n ==> !opens_a_section(#[trigger] list[j])
}

/// Does a line give a key a value?
pub open spec fn gives(line: Seq<char>, key: Seq<char>, value: Seq<char>) -> bool {
    trimmed(line) == key.push('=') + value
}

/// Does a line of the entry's own section give a key a value?
pub open spec fn entry_gives(
    list: Seq<Seq<char>>,
    i: int,
    key: Seq<char>,
    value: Seq<char>,
) -> bool {
    0 <= i < list.len() && in_own_section(list, i) && !opens_a_section(list[i]) && gives(
        list[i],
        key,
        value,
    )
}

/// Does a line of the entry's own section say that it does not belong in a menu?
pub open spec fn entry_refuses(list: Seq<Seq<char>>, i: int) -> bool {
    ||| entry_gives(list, i, "NoDisplay"@, "true"@)
    ||| entry_gives(list, i, "Hidden"@, "true"@)
    ||| entry_gives(list, i, "Terminal"@, "true"@)
    ||| exists|value: Seq<char>| #[trigger]
        entry_gives(list, i, "Type"@, value) && trimmed(value) != "Application"@
}

/// The keys that are read hold no equals sign, and no two of them are the same.
proof fn keys()
    ensures
        forall|key: Seq<char>|
            key == "Name"@ || key == "Exec"@ || key == "Icon"@ || key == "NoDisplay"@ || key
                == "Hidden"@ || key == "Terminal"@ || key == "Type"@ ==> !(#[trigger] key.contains(
                '=',
            )),
        "Name"@ != "Exec"@ && "Name"@ != "Icon"@ && "Name"@ != "NoDisplay"@ && "Name"@ != "Hidden"@
            && "Name"@ != "Terminal"@ && "Name"@ != "Type"@,
        "Exec"@ != "Icon"@ && "Exec"@ != "NoDisplay"@ && "Exec"@ != "Hidden"@ && "Exec"@
            != "Terminal"@ && "Exec"@ != "Type"@,
        "Icon"@ != "NoDisplay"@ && "Icon"@ != "Hidden"@ && "Icon"@ != "Terminal"@ && "Icon"@
            != "Type"@,
        "Type"@ != "NoDisplay"@ && "Type"@ != "Hidden"@ && "Type"@ != "Terminal"@,
        "true"@ != "false"@,
        "[Desktop Entry]"@.len() > 0 && "[Desktop Entry]"@[0] == '[',
{
    reveal_strlit("Name");
    reveal_strlit("Exec");
    reveal_strlit("Icon");
    reveal_strlit("NoDisplay");
    reveal_strlit("Hidden");
    reveal_strlit("Terminal");
    reveal_strlit("Type");
    reveal_strlit("true");
    reveal_strlit("false");
    reveal_strlit("[Desktop Entry]");
    assert("Name"@.len() == 4 && "Exec"@.len() == 4 && "Icon"@.len() == 4 && "Type"@.len() == 4);
    assert("NoDisplay"@.len() == 9 && "Hidden"@.len() == 6 && "Terminal"@.len() == 8);
    assert("true"@.len() == 4 && "false"@.len() == 5);
    assert("Name"@[0] == 'N' && "Exec"@[0] == 'E' && "Icon"@[0] == 'I' && "Type"@[0] == 'T');
}

proof fn what_a_line_gives(line: Seq<char>, key: Seq<char>, value: Seq<char>)
    requires
        !key.contains('='),
    ensures
        gives(line, key, value) <==> split_at_first(trimmed(line), '=') == Some((key, value)),
{
    a_text_splits_at_the_first(trimmed(line), '=', key, value);
}

proof fn own_section_of_front(list: Seq<Seq<char>>, n: int)
    requires
        0 <= n < list.len(),
    ensures
        in_own_section(list.drop_last(), n) == in_own_section(list, n),
{
    let front = list.drop_last();
    if in_own_section(front, n) {
        let h = choose|h: int|
            0 <= h < n && trimmed(#[trigger] front[h]) == "[Desktop Entry]"@ && forall|j: int|
                h < j < n ==> !opens_a_section(#[trigger] front[j]);
        assert(list[h] == front[h]);
        assert forall|j: int| h < j < n implies !opens_a_section(#[trigger] list[j]) by {
            assert(front[j] == list[j]);
        }
    }
    if in_own_section(list, n) {
        let h = choose|h: int|
            0 <= h < n && trimmed(#[trigger] list[h]) == "[Desktop Entry]"@ && forall|j: int|
                h < j < n ==> !opens_a_section(#[trigger] list[j]);
        assert(list[h] == front[h]);
        assert forall|j: int| h < j < n implies !opens_a_section(#[trigger] front[j]) by {
            assert(front[j] == list[j]);
        }
    }
}

/// The section that is being read is known.
proof fn the_section_is_known(list: Seq<Seq<char>>)
    ensures
        Reading::after_all(list).in_entry == in_own_section(list, list.len() as int),
    decreases list.len(),
{
    keys();
    if list.len() > 0 {
        let front = list.drop_last();
        let n = front.len() as int;
        let last = list.last();
        assert(list[n] == last);
        the_section_is_known(front);
        own_section_of_front(list, n);
        if opens_a_section(last) {
            if trimmed(last) == "[Desktop Entry]"@ {
                assert(in_own_section(list, n + 1));
            } else if in_own_section(list, n + 1) {
                let h = choose|h: int|
                    0 <= h < n + 1 && trimmed(#[trigger] list[h]) == "[Desktop Entry]"@ && forall|
                        j: int,
                    |
                        h < j < n + 1 ==> !opens_a_section(#[trigger] list[j]);
                assert(h < n);
                assert(!opens_a_section(list[n]));
            }
        } else {
            if in_own_section(list, n) {
                let h = choose|h: int|
                    0 <= h < n && trimmed(#[trigger] list[h]) == "[Desktop Entry]"@ && forall|
                        j: int,
                    |
                        h < j < n ==> !opens_a_section(#[trigger] list[j]);
                assert(trimmed(list[h]) == "[Desktop Entry]"@);
                assert(in_own_section(list, n + 1));
            }
            if in_own_section(list, n + 1) {
                let h = choose|h: int|
                    0 <= h < n + 1 && trimmed(#[trigger] list[h]) == "[Desktop Entry]"@ && forall|
                        j: int,
                    |
                        h < j < n + 1 ==> !opens_a_section(#[trigger] list[j]);
                assert(h != n);
                assert(in_own_section(list, n));
            }
        }
    } else {
        assert(!in_own_section(list, 0));
    }
}

proof fn entry_gives_in_front(
    list: Seq<Seq<char>>,
    i: int,
    key: Seq<char>,
    value: Seq<char>,
)
    requires
        0 <= i < list.len() - 1,
    ensures
        entry_gives(list.drop_last(), i, key, value) == entry_gives(list, i, key, value),
{
    own_section_of_front(list, i);
    assert(list.drop_last()[i] == list[i]);
}

proof fn entry_refuses_in_front(list: Seq<Seq<char>>, i: int)
    requires
        0 <= i < list.len() - 1,
    ensures
        entry_refuses(list.drop_last(), i) == entry_refuses(list, i),
{
    let front = list.drop_last();
    entry_gives_in_front(list, i, "NoDisplay"@, "true"@);
    entry_gives_in_front(list, i, "Hidden"@, "true"@);
    entry_gives_in_front(list, i, "Terminal"@, "true"@);
    if exists|value: Seq<char>| #[trigger]
        entry_gives(front, i, "Type"@, value) && trimmed(value) != "Application"@ {
        let value = choose|value: Seq<char>| #[trigger]
            entry_gives(front, i, "Type"@, value) && trimmed(value) != "Application"@;
        entry_gives_in_front(list, i, "Type"@, value);
    }
    if exists|value: Seq<char>| #[trigger]
        entry_gives(list, i, "Type"@, value) && trimmed(value) != "Application"@ {
        let value = choose|value: Seq<char>| #[trigger]
            entry_gives(list, i, "Type"@, value) && trimmed(value) != "Application"@;
        entry_gives_in_front(list, i, "Type"@, value);
    }
}

/// A file is refused exactly where its own section says that it does not belong
/// in a menu: it is not to be displayed, it is hidden, it wants a terminal, or it
/// is something other than an application. What other sections say is not
/// about the entry.
pub proof fn only_its_own_section_refuses_a_file(list: Seq<Seq<char>>)
    ensures
        Reading::after_all(list).refused <==> exists|i: int| #[trigger] entry_refuses(list, i),
    decreases list.len(),
{
    keys();
    if list.len() == 0 {
        assert forall|i: int| !(#[trigger] entry_refuses(list, i)) by {}
    } else {
        let front = list.drop_last();
        let n = front.len() as int;
        let last = list.last();
        assert(list[n] == last);
        only_its_own_section_refuses_a_file(front);
        the_section_is_known(front);
        own_section_of_front(list, n);
        assert forall|i: int| i != n implies entry_refuses(front, i) == entry_refuses(
            list,
            i,
        ) by {
            if 0 <= i < n {
                entry_refuses_in_front(list, i);
            }
        }
        what_a_line_gives(last, "NoDisplay"@, "true"@);
        what_a_line_gives(last, "Hidden"@, "true"@);
        what_a_line_gives(last, "Terminal"@, "true"@);
        assert forall|value: Seq<char>|
            gives(last, "Type"@, value) <==> #[trigger] split_at_first(trimmed(last), '=') == Some(
                ("Type"@, value),
            ) by {
            what_a_line_gives(last, "Type"@, value);
        }
        let before = Reading::after_all(front);
        let said = !before.refused && before.after(last).refused;
        if entry_refuses(list, n) {
            if exists|value: Seq<char>| #[trigger]
                entry_gives(list, n, "Type"@, value) && trimmed(value) != "Application"@ {
                let value = choose|value: Seq<char>| #[trigger]
                    entry_gives(list, n, "Type"@, value) && trimmed(value) != "Application"@;
                what_a_line_gives(last, "Type"@, value);
            }
            assert(before.after(last).refused);
        }
        if said {
            assert(before.in_entry && !opens_a_section(last));
            let (key, value) = split_at_first(trimmed(last), '=')->0;
            if key == "Type"@ {
                what_a_line_gives(last, key, value);
                assert(entry_gives(list, n, "Type"@, value));
            }
            assert(entry_refuses(list, n));
        }
        if exists|i: int| #[trigger] entry_refuses(front, i) {
            let i = choose|i: int| #[trigger] entry_refuses(front, i);
            assert(0 <= i < n);
            assert(entry_refuses(list, i));
        }
        if exists|i: int| #[trigger] entry_refuses(list, i) {
            let i = choose|i: int| #[trigger] entry_refuses(list, i);
            if i != n {
                assert(entry_refuses(front, i));
            }
        }
    }
}

/// A line that says nothing of the entry: it opens no section, and gives none of
/// the keys that are read, or only says that the file is not hidden, not without
/// a display, not in need of a terminal.
pub open spec fn says_nothing(line: Seq<char>) -> bool {
    &&& !opens_a_section(line)
    &&& forall|value: Seq<char>|
        !(#[trigger] gives(line, "Name"@, value)) && !gives(line, "Exec"@, value) && !gives(
            line,
            "Icon"@,
            value,
        ) && !gives(line, "Type"@, value)
    &&& !gives(line, "NoDisplay"@, "true"@)
    &&& !gives(line, "Hidden"@, "true"@)
    &&& !gives(line, "Terminal"@, "true"@)
}

/// A line that says nothing of the entry changes nothing of what is read,
/// wherever it stands.
pub proof fn a_line_that_says_nothing_changes_nothing(
    before: Seq<Seq<char>>,
    line: Seq<char>,
    after: Seq<Seq<char>>,
)
    requires
        says_nothing(line),
    ensures
        Reading::after_all(before.push(line) + after) == Reading::after_all(before + after),
    decreases after.len(),
{
    keys();
    if after.len() == 0 {
        assert(before.push(line) + after =~= before.push(line));
        assert(before + after =~= before);
        assert(before.push(line).drop_last() =~= before);
        if let Some((key, value)) = split_at_first(trimmed(line), '=') {
            assert(!gives(line, "Name"@, value));
            what_a_line_gives(line, "Name"@, value);
            what_a_line_gives(line, "Exec"@, value);
            what_a_line_gives(line, "Icon"@, value);
            what_a_line_gives(line, "Type"@, value);
            what_a_line_gives(line, "NoDisplay"@, value);
            what_a_line_gives(line, "Hidden"@, value);
            what_a_line_gives(line, "Terminal"@, value);
        }
        assert(Reading::after_all(before).after(line) =~= Reading::after_all(before));
    } else {
        let front = after.drop_last();
        a_line_that_says_nothing_changes_nothing(before, line, front);
        assert((before.push(line) + after).drop_last() =~= before.push(line) + front);
        assert((before + after).drop_last() =~= before + front);
        assert((before.push(line) + after).last() == after.last());
        assert((before + after).last() == after.last());
    }
}

/// Saying that an application needs no terminal, or is not hidden, says nothing.
pub proof fn saying_no_changes_nothing(line: Seq<char>, key: Seq<char>)
    requires
        key == "Terminal"@ || key == "Hidden"@ || key == "NoDisplay"@,
        gives(line, key, "false"@),
        !opens_a_section(line),
    ensures
        says_nothing(line),
{
    keys();
    what_a_line_gives(line, key, "false"@);
    what_a_line_gives(line, "NoDisplay"@, "true"@);
    what_a_line_gives(line, "Hidden"@, "true"@);
    what_a_line_gives(line, "Terminal"@, "true"@);
    assert forall|value: Seq<char>|
        !(#[trigger] gives(line, "Name"@, value)) && !gives(line, "Exec"@, value) && !gives(
            line,
            "Icon"@,
            value,
        ) && !gives(line, "Type"@, value) by {
        what_a_line_gives(line, "Name"@, value);
        what_a_line_gives(line, "Exec"@, value);
        what_a_line_gives(line, "Icon"@, value);
        what_a_line_gives(line, "Type"@, value);
    }
}

/// What a file's own section gives a key first.
pub open spec fn gives_first(
    list: Seq<Seq<char>>,
    i: int,
    key: Seq<char>,
    value: Seq<char>,
) -> bool {
    &&& entry_gives(list, i, key, value)
    &&& forall|j: int, v: Seq<char>| 0 <= j < i ==> !(#[trigger] entry_gives(list, j, key, v))
}

/// What was read for a key.
pub open spec fn was_read(reading: Reading, key: Seq<char>) -> Option<Seq<char>> {
    if key == "Name"@ {
        reading.name
    } else if key == "Exec"@ {
        reading.command
    } else {
        reading.icon
    }
}

/// The name, the command and the icon of an entry are each the first that its
/// own section gives, without the white space round it; where the section gives
/// none, there is none.
pub proof fn the_first_value_counts(list: Seq<Seq<char>>, key: Seq<char>)
    requires
        key == "Name"@ || key == "Exec"@ || key == "Icon"@,
    ensures
        forall|i: int, value: Seq<char>| #[trigger]
            gives_first(list, i, key, value) ==> was_read(Reading::after_all(list), key) == Some(
                trimmed(value),
            ),
        (forall|i: int, value: Seq<char>| !(#[trigger] entry_gives(list, i, key, value)))
            ==> was_read(Reading::after_all(list), key) is None,
    decreases list.len(),
{
    keys();
    if list.len() > 0 {
        let front = list.drop_last();
        let n = front.len() as int;
        let last = list.last();
        assert(list[n] == last);
        the_first_value_counts(front, key);
        the_section_is_known(front);
        own_section_of_front(list, n);
        let before = Reading::after_all(front);
        let after = Reading::after_all(list);
        assert(after == before.after(last));
        assert forall|i: int, v: Seq<char>| i != n implies (#[trigger] entry_gives(front, i, key, v)
            <==> entry_gives(list, i, key, v)) by {
            if 0 <= i < n {
                entry_gives_in_front(list, i, key, v);
            }
        }
        assert forall|v: Seq<char>| gives(last, key, v) <==> #[trigger] split_at_first(
            trimmed(last),
            '=',
        ) == Some((key, v)) by {
            what_a_line_gives(last, key, v);
        }
        let silent = forall|i: int, v: Seq<char>| !(#[trigger] entry_gives(front, i, key, v));
        if !silent {
            a_first_is_given(front, key);
            let (i, v) = choose|i: int, v: Seq<char>| #[trigger] gives_first(front, i, key, v);
            assert(gives_first(front, i, key, v));
            assert(was_read(before, key) is Some);
            assert(was_read(after, key) == was_read(before, key));
        }
        assert forall|i: int, value: Seq<char>| #[trigger]
            gives_first(list, i, key, value) implies was_read(after, key) == Some(
            trimmed(value),
        ) by {
            if i < n {
                assert(entry_gives(front, i, key, value));
                assert forall|j: int, v: Seq<char>| 0 <= j < i implies !(
                #[trigger] entry_gives(front, j, key, v)) by {
                    assert(!entry_gives(list, j, key, v));
                }
                assert(gives_first(front, i, key, value));
            } else {
                assert(i == n);
                assert forall|j: int, v: Seq<char>| !(#[trigger] entry_gives(front, j, key, v)) by {
                    if 0 <= j < n {
                        assert(!entry_gives(list, j, key, v));
                    }
                }
                what_a_line_gives(last, key, value);
            }
        }
        if forall|i: int, value: Seq<char>| !(#[trigger] entry_gives(list, i, key, value)) {
            assert forall|i: int, v: Seq<char>| !(#[trigger] entry_gives(front, i, key, v)) by {
                if 0 <= i < n {
                    assert(!entry_gives(list, i, key, v));
                }
            }
            if before.in_entry && !opens_a_section(last) {
                if let Some((k, v)) = split_at_first(trimmed(last), '=') {
                    if k == key {
                        what_a_line_gives(last, key, v);
                        assert(entry_gives(list, n, key, v));
                    }
                }
            }
        }
    } else {
        assert forall|i: int, value: Seq<char>| !(#[trigger] gives_first(list, i, key, value)) by {}
    }
}

/// Where a key is given at all, it is given a first time.
proof fn a_first_is_given(list: Seq<Seq<char>>, key: Seq<char>)
    requires
        exists|i: int, v: Seq<char>| #[trigger] entry_gives(list, i, key, v),
    ensures
        exists|i: int, v: Seq<char>| #[trigger] gives_first(list, i, key, v),
{
    let (i, v) = choose|i: int, v: Seq<char>| #[trigger] entry_gives(list, i, key, v);
    first_given_by(list, key, i, v);
}

proof fn first_given_by(list: Seq<Seq<char>>, key: Seq<char>, i: int, v: Seq<char>)
    requires
        entry_gives(list, i, key, v),
    ensures
        exists|k: int, w: Seq<char>| #[trigger] gives_first(list, k, key, w),
    decreases i,
{
    if exists|j: int, w: Seq<char>| 0 <= j < i && #[trigger] entry_gives(list, j, key, w) {
        let (j, w) = choose|j: int, w: Seq<char>|
            0 <= j < i && #[trigger] entry_gives(list, j, key, w);
        first_given_by(list, key, j, w);
    } else {
        assert(gives_first(list, i, key, v));
    }
}

/// A file is in the menu exactly where nothing refuses it and it has a name and a
/// command that are not empty; it is there under its own name, with its icon, and
/// under the name its file has.
pub proof fn a_file_is_listed_under_its_name(app_id: Seq<char>, text: Seq<char>)
    ensures
        ({
            let reading = Reading::after_all(lines(text));
            match entry_of(app_id, text) {
                Some(entry) => {
                    &&& !reading.refused
                    &&& reading.name == Some(entry.name) && entry.name.len() > 0
                    &&& reading.command is Some && entry.command.len() > 0
                    &&& entry.icon == reading.icon
                    &&& entry.app_id == app_id
                },
                None => reading.refused || reading.name is None || reading.command is None
                    || reading.name->0.len() == 0 || stripped(reading.command->0).len() == 0,
            }
        }),
{
}

/// A command without its field codes.
pub open spec fn stripped(command: Seq<char>) -> Seq<char> {
    joined(words(command).filter(|word: Seq<char>| !is_field_code(word)))
}

} // verus!
