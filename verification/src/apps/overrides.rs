//! The user's launch overrides.
//!
//! They exist for one thing a `.desktop` file cannot express: a single-instance
//! application hands its request to a copy already running as the same user and
//! exits, so the launcher's window never appears at all. The second instance
//! needs a profile of its own, and only the person running this knows where that
//! should live:
//!
//! ```text
//! Firefox  = firefox --no-remote --profile ~/.webland/firefox
//! Chromium = chromium --user-data-dir=~/.webland/chromium
//! ```

use crate::apps::words::{expand_home, home_expanded};
use crate::text::{
    a_text_splits_at_the_first, contains_text, holds, lines, lines_of, lowercase, same,
    split_at_first, split_once,
    to_lowercase, trim, trimmed,
};
use vstd::prelude::*;

verus! {

/// Commands by lower-cased name, each name once, in the order of the file.
#[derive(Debug)]
pub struct Overrides {
    list: Vec<(String, String)>,
}

/// A name and its command.
pub type Pair = (Seq<char>, Seq<char>);

/// A list with a command for a name: the last one given counts.
pub open spec fn with_command(list: Seq<Pair>, name: Seq<char>, command: Seq<char>) -> Seq<Pair>
    decreases list.len(),
{
    if list.len() == 0 {
        seq![(name, command)]
    } else if list[0].0 == name {
        list.update(0, (name, command))
    } else {
        seq![list[0]] + with_command(list.drop_first(), name, command)
    }
}

/// The command a list has for a name.
pub open spec fn command_of(list: Seq<Pair>, name: Seq<char>) -> Option<Seq<char>>
    decreases list.len(),
{
    if list.len() == 0 {
        None
    } else if list[0].0 == name {
        Some(list[0].1)
    } else {
        command_of(list.drop_first(), name)
    }
}

/// The command of the first name that is part of a text.
pub open spec fn command_within(list: Seq<Pair>, text: Seq<char>) -> Option<Seq<char>>
    decreases list.len(),
{
    if list.len() == 0 {
        None
    } else if holds(text, list[0].0) {
        Some(list[0].1)
    } else {
        command_within(list.drop_first(), text)
    }
}

/// What is written on one line of the file: a name, the first `=`, and a command.
/// Nothing on blank lines and `#` comments.
pub open spec fn written_on(line: Seq<char>, home: Seq<char>) -> Option<Pair> {
    let text = trimmed(line);
    if text.len() == 0 || text[0] == '#' {
        None
    } else {
        match split_at_first(text, '=') {
            None => None,
            Some((left, right)) => Some((trimmed(left), home_expanded(trimmed(right), home))),
        }
    }
}

/// A list with a command for a name noted; nothing is noted where either is empty.
pub open spec fn noting(list: Seq<Pair>, name: Seq<char>, command: Seq<char>) -> Seq<Pair> {
    if name.len() == 0 || command.len() == 0 {
        list
    } else {
        with_command(list, name, command)
    }
}

/// What the lines of the file say, taken together.
pub open spec fn overrides_in(list: Seq<Seq<char>>, home: Seq<char>) -> Seq<Pair>
    decreases list.len(),
{
    if list.len() == 0 {
        seq![]
    } else {
        let before = overrides_in(list.drop_last(), home);
        match written_on(list.last(), home) {
            Some((name, command)) => noting(before, lowercase(name), command),
            None => before,
        }
    }
}

/// The override for an application, given its name and that of its `.desktop` file
/// in lower case: the one for its whole name, else that for its file's name, else
/// the first whose name is part of the application's.
pub open spec fn chosen(list: Seq<Pair>, name: Seq<char>, file: Seq<char>) -> Option<Seq<char>> {
    match command_of(list, name) {
        Some(command) => Some(command),
        None => match command_of(list, file) {
            Some(command) => Some(command),
            None => command_within(list, name),
        },
    }
}

/// The override for an application, if there is one.
pub open spec fn command_for(list: Seq<Pair>, name: Seq<char>, app_id: Seq<char>) -> Option<
    Seq<char>,
> {
    chosen(list, lowercase(name), lowercase(app_id))
}

impl Overrides {
    pub closed spec fn view(&self) -> Seq<Pair> {
        self.list.deep_view()
    }

    /// No overrides.
    pub fn new() -> (overrides: Self)
        ensures
            overrides@ == Seq::<Pair>::empty(),
    {
        let overrides = Overrides { list: Vec::new() };
        assert(overrides@ =~= Seq::<Pair>::empty());
        overrides
    }

    /// How many names there are commands for.
    pub fn len(&self) -> (n: usize)
        ensures
            n == self@.len(),
    {
        self.list.len()
    }

    /// The command for a name.
    pub fn get(&self, name: &str) -> (command: Option<&String>)
        ensures
            match command {
                Some(text) => command_of(self@, name@) == Some(text@),
                None => command_of(self@, name@) is None,
            },
    {
        let ghost all = self@;
        let mut i: usize = 0;
        assert(all.skip(0) =~= all);
        while i < self.list.len()
            invariant
                i <= self.list@.len(),
                all == self.list.deep_view(),
                command_of(all, name@) == command_of(all.skip(i as int), name@),
            decreases self.list@.len() - i,
        {
            assert(all.skip(i as int).drop_first() =~= all.skip(i + 1));
            assert(all[i as int] == (self.list@[i as int].0@, self.list@[i as int].1@));
            if same(self.list[i].0.as_str(), name) {
                return Some(&self.list[i].1);
            }
            i = i + 1;
        }
        None
    }

    /// The command of the first name that is part of a text.
    fn within(&self, text: &str) -> (command: Option<&String>)
        ensures
            match command {
                Some(found) => command_within(self@, text@) == Some(found@),
                None => command_within(self@, text@) is None,
            },
    {
        let ghost all = self@;
        let mut i: usize = 0;
        assert(all.skip(0) =~= all);
        while i < self.list.len()
            invariant
                i <= self.list@.len(),
                all == self.list.deep_view(),
                command_within(all, text@) == command_within(all.skip(i as int), text@),
            decreases self.list@.len() - i,
        {
            assert(all.skip(i as int).drop_first() =~= all.skip(i + 1));
            assert(all[i as int] == (self.list@[i as int].0@, self.list@[i as int].1@));
            if contains_text(text, self.list[i].0.as_str()) {
                return Some(&self.list[i].1);
            }
            i = i + 1;
        }
        None
    }

    /// Note a command for a name: the last one given counts.
    fn put(&mut self, name: String, command: String)
        ensures
            final(self)@ == with_command(old(self)@, name@, command@),
    {
        let ghost all = self@;
        let ghost wanted = with_command(all, name@, command@);
        let mut i: usize = 0;
        proof {
            assert(all.skip(0) =~= all);
            assert(all.take(0) + wanted =~= wanted);
        }
        while i < self.list.len()
            invariant
                i <= self.list@.len(),
                all == self.list.deep_view(),
                self@ == old(self)@,
                wanted == with_command(old(self)@, name@, command@),
                wanted == all.take(i as int) + with_command(all.skip(i as int), name@, command@),
            decreases self.list@.len() - i,
        {
            let ghost rest = all.skip(i as int);
            assert(all[i as int] == (self.list@[i as int].0@, self.list@[i as int].1@));
            if same(self.list[i].0.as_str(), name.as_str()) {
                self.list[i] = (name, command);
                assert(self@ =~= wanted);
                return;
            }
            proof {
                let others = with_command(all.skip(i + 1), name@, command@);
                assert(rest.drop_first() =~= all.skip(i + 1));
                assert(all.take(i as int) + (seq![all[i as int]] + others) =~= all.take(i + 1)
                    + others);
            }
            i = i + 1;
        }
        self.list.push((name, command));
        proof {
            assert(all.skip(i as int) =~= Seq::<Pair>::empty());
            assert(self@ =~= wanted);
        }
    }

    /// Note a command for a name in lower case, unless either is empty: the last
    /// one given counts.
    pub fn note(&mut self, name: String, command: String)
        ensures
            final(self)@ == noting(old(self)@, name@, command@),
    {
        if !name.as_str().is_empty() && !command.as_str().is_empty() {
            self.put(name, command);
        }
    }

    /// The override for an application, if there is one.
    ///
    /// The name in the file need not be the entry's whole name: any part of it
    /// will do, as will the `.desktop` file's own name.
    pub fn command_for(&self, name: &str, app_id: &str) -> (command: Option<&String>)
        ensures
            match command {
                Some(text) => command_for(self@, name@, app_id@) == Some(text@),
                None => command_for(self@, name@, app_id@) is None,
            },
    {
        let lower = to_lowercase(name);
        let file = to_lowercase(app_id);
        self.choose_command(lower.as_str(), file.as_str())
    }

    /// The override for an application, given its name and that of its `.desktop`
    /// file in lower case.
    pub fn choose_command(&self, name: &str, file: &str) -> (command: Option<&String>)
        ensures
            match command {
                Some(text) => chosen(self@, name@, file@) == Some(text@),
                None => chosen(self@, name@, file@) is None,
            },
    {
        if let Some(command) = self.get(name) {
            return Some(command);
        }
        if let Some(command) = self.get(file) {
            return Some(command);
        }
        self.within(name)
    }
}

/// What is written on one line of the file.
pub fn read_line(line: &str, home: &str) -> (pair: Option<(String, String)>)
    ensures
        pair.deep_view() == written_on(line@, home@),
{
    let text = trim(line);
    if text.as_str().is_empty() || text.as_str().get_char(0) == '#' {
        return None;
    }
    match split_once(text.as_str(), '=') {
        None => None,
        Some((left, right)) => Some(
            (trim(left.as_str()), expand_home(trim(right.as_str()).as_str(), home)),
        ),
    }
}

/// Parse `Name = command` lines, keyed by lower-cased name.
///
/// Blank lines and `#` comments are ignored. The first `=` separates, so a
/// command may contain more of them.
pub fn parse_overrides(text: &str, home: &str) -> (overrides: Overrides)
    ensures
        overrides@ == overrides_in(lines(text@), home@),
{
    let list = lines_of(text);
    let ghost all = list.deep_view();
    let mut overrides = Overrides::new();
    let mut i: usize = 0;
    assert(overrides@ =~= overrides_in(all.take(0), home@));
    while i < list.len()
        invariant
            i <= list@.len(),
            all == list.deep_view(),
            overrides@ == overrides_in(all.take(i as int), home@),
        decreases list@.len() - i,
    {
        proof {
            assert(all.take(i + 1).drop_last() =~= all.take(i as int));
            assert(all.take(i + 1).last() == list@[i as int]@);
        }
        if let Some((name, command)) = read_line(list[i].as_str(), home) {
            overrides.note(to_lowercase(name.as_str()), command);
        }
        i = i + 1;
    }
    assert(all.take(i as int) =~= all);
    overrides
}

/// The last command given for a name is the one it has, and every other name
/// keeps its own.
pub proof fn the_last_override_counts(
    list: Seq<Pair>,
    name: Seq<char>,
    command: Seq<char>,
    other: Seq<char>,
)
    ensures
        command_of(with_command(list, name, command), name) == Some(command),
        other != name ==> command_of(with_command(list, name, command), other) == command_of(
            list,
            other,
        ),
    decreases list.len(),
{
    let after = with_command(list, name, command);
    if list.len() == 0 {
        reveal_with_fuel(command_of, 2);
        assert(after.drop_first() =~= list);
    } else if list[0].0 == name {
        assert(after.drop_first() =~= list.drop_first());
    } else {
        the_last_override_counts(list.drop_first(), name, command, other);
        assert(after.drop_first() =~= with_command(list.drop_first(), name, command));
    }
}

/// A line gives the command after its first equals sign to the name before it,
/// each without the white space round it and with the home directory filled in.
/// A comment gives nothing, and nor does a line that says nothing.
pub proof fn a_line_gives_a_name_a_command(
    line: Seq<char>,
    home: Seq<char>,
    left: Seq<char>,
    right: Seq<char>,
)
    ensures
        trimmed(line) == left.push('=') + right && !left.contains('=') && trimmed(line)[0] != '#'
            ==> written_on(line, home) == Some(
            (trimmed(left), home_expanded(trimmed(right), home)),
        ),
        trimmed(line).len() == 0 || trimmed(line)[0] == '#' || !trimmed(line).contains('=')
            ==> written_on(line, home) is None,
{
    a_text_splits_at_the_first(trimmed(line), '=', left, right);
}

/// A line with a name and a command is the last word on that name, whatever came
/// before; a line that gives nothing, or gives a name nothing, changes nothing.
pub proof fn the_last_line_counts(list: Seq<Seq<char>>, line: Seq<char>, home: Seq<char>)
    ensures
        written_on(line, home) is None ==> overrides_in(list.push(line), home) == overrides_in(
            list,
            home,
        ),
        written_on(line, home) matches Some((name, command)) ==> {
            let after = overrides_in(list.push(line), home);
            if lowercase(name).len() > 0 && command.len() > 0 {
                command_of(after, lowercase(name)) == Some(command)
            } else {
                after == overrides_in(list, home)
            }
        },
{
    assert(list.push(line).drop_last() =~= list);
    if let Some((name, command)) = written_on(line, home) {
        the_last_override_counts(
            overrides_in(list, home),
            lowercase(name),
            command,
            lowercase(name),
        );
    }
}

/// An override for an application's whole name comes before one for its file's
/// name, and that before one for a part of the name; of several parts the first
/// in the file counts, and without any there is none.
pub proof fn the_closest_override_counts(
    list: Seq<Pair>,
    name: Seq<char>,
    file: Seq<char>,
    i: int,
)
    ensures
        command_of(list, name) is Some ==> chosen(list, name, file) == command_of(list, name),
        command_of(list, name) is None && command_of(list, file) is Some ==> chosen(
            list,
            name,
            file,
        ) == command_of(list, file),
        command_of(list, name) is None && command_of(list, file) is None && 0 <= i < list.len()
            && holds(name, list[i].0) && (forall|j: int|
            0 <= j < i ==> !holds(name, (#[trigger] list[j]).0)) ==> chosen(list, name, file)
            == Some(list[i].1),
        command_of(list, name) is None && command_of(list, file) is None && (forall|j: int|
            0 <= j < list.len() ==> !holds(name, (#[trigger] list[j]).0)) ==> chosen(
            list,
            name,
            file,
        ) is None,
{
    if 0 <= i < list.len() && holds(name, list[i].0) && (forall|j: int|
        0 <= j < i ==> !holds(name, (#[trigger] list[j]).0)) {
        the_first_part_counts(list, name, i);
    }
    if forall|j: int| 0 <= j < list.len() ==> !holds(name, (#[trigger] list[j]).0) {
        no_part_counts(list, name);
    }
}

proof fn the_first_part_counts(list: Seq<Pair>, text: Seq<char>, i: int)
    requires
        0 <= i < list.len(),
        holds(text, list[i].0),
        forall|j: int| 0 <= j < i ==> !holds(text, (#[trigger] list[j]).0),
    ensures
        command_within(list, text) == Some(list[i].1),
    decreases list.len(),
{
    if i > 0 {
        assert(!holds(text, list[0].0));
        let rest = list.drop_first();
        assert forall|j: int| 0 <= j < i - 1 implies !holds(text, (#[trigger] rest[j]).0) by {
            assert(rest[j] == list[j + 1]);
        }
        the_first_part_counts(rest, text, i - 1);
    }
}

proof fn no_part_counts(list: Seq<Pair>, text: Seq<char>)
    requires
        forall|j: int| 0 <= j < list.len() ==> !holds(text, (#[trigger] list[j]).0),
    ensures
        command_within(list, text) is None,
    decreases list.len(),
{
    if list.len() > 0 {
        assert(!holds(text, list[0].0));
        let rest = list.drop_first();
        assert forall|j: int| 0 <= j < rest.len() implies !holds(text, (#[trigger] rest[j]).0) by {
            assert(rest[j] == list[j + 1]);
        }
        no_part_counts(rest, text);
    }
}

} // verus!
