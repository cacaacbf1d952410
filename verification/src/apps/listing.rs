//! The applications on this machine, and how to start each one.

use crate::apps::entry::{Entry, EntryView};
use crate::apps::overrides::{command_for, Overrides, Pair};
use crate::apps::paths::{
    components, components_first, has_extension, is_of_type, is_path_first, is_same_path,
    path_first, path_order_is_transitive, paths_are_ordered, ComponentView,
};
use crate::apps::words::{push_text, shell_split, shell_words, split_whitespace, words};
use crate::protocol::messages::{Application, ApplicationView};
use crate::text::{
    begins_with, comes_first, is_in_order, lowercase, order_is_total, order_is_transitive, same,
    to_lowercase,
};
use vstd::multiset::Multiset;
use vstd::prelude::*;

verus! {

/// An entry, and the text it is ordered by.
#[derive(Debug)]
pub struct Keyed {
    pub key: String,
    pub entry: Entry,
}

/// What a [`Keyed`] says.
pub type KeyedView = (Seq<char>, EntryView);

impl DeepView for Keyed {
    type V = KeyedView;

    open spec fn deep_view(&self) -> KeyedView {
        (self.key@, self.entry.deep_view())
    }
}

/// Entries with what puts them in the order of a list that a person reads: their
/// names, upper and lower case alike.
pub open spec fn keyed(list: Seq<EntryView>) -> Seq<KeyedView> {
    list.map_values(|entry: EntryView| (lowercase(entry.name), entry))
}

/// The entries alone.
pub open spec fn entries_of(list: Seq<KeyedView>) -> Seq<EntryView> {
    list.map_values(|one: KeyedView| one.1)
}

/// Whether an entry may stand in front of another.
pub open spec fn in_order(one: KeyedView, other: KeyedView) -> bool {
    comes_first(one.0, other.0)
}

/// An ordered list with one more entry in it, behind those it may stand behind.
pub open spec fn insert_entry(list: Seq<KeyedView>, entry: KeyedView) -> Seq<KeyedView>
    decreases list.len(),
{
    if list.len() == 0 || in_order(list.last(), entry) {
        list.push(entry)
    } else {
        insert_entry(list.drop_last(), entry).push(list.last())
    }
}

/// Entries in order; those of the same key keep the order they came in.
pub open spec fn ordered(list: Seq<KeyedView>) -> Seq<KeyedView>
    decreases list.len(),
{
    if list.len() == 0 {
        seq![]
    } else {
        insert_entry(ordered(list.drop_last()), list.last())
    }
}

/// A list without the entries that have the name of the one kept before them.
pub open spec fn without_repeats(list: Seq<EntryView>) -> Seq<EntryView>
    decreases list.len(),
{
    if list.len() == 0 {
        seq![]
    } else {
        let kept = without_repeats(list.drop_last());
        if kept.len() > 0 && kept.last().name == list.last().name {
            kept
        } else {
            kept.push(list.last())
        }
    }
}

/// Put an entry into an ordered list, behind those it may stand behind.
fn insert(list: &mut Vec<Keyed>, entry: Keyed)
    ensures
        final(list).deep_view() == insert_entry(old(list).deep_view(), entry.deep_view()),
{
    let ghost all = list.deep_view();
    let ghost shown = entry.deep_view();
    let mut at: usize = list.len();
    proof {
        assert(all.take(at as int) =~= all);
        assert(insert_entry(all, shown) + all.skip(at as int) =~= insert_entry(all, shown));
    }
    loop
        invariant
            at <= list@.len(),
            list.deep_view() == all,
            entry.deep_view() == shown,
            insert_entry(all, shown) == insert_entry(all.take(at as int), shown) + all.skip(
                at as int,
            ),
        ensures
            at <= list@.len(),
            list.deep_view() == all,
            insert_entry(all, shown) == all.take(at as int).push(shown) + all.skip(at as int),
        decreases at,
    {
        let ghost part = all.take(at as int);
        if at == 0 {
            break;
        }
        assert(part.last() == list@[at - 1].deep_view());
        if is_in_order(list[at - 1].key.as_str(), entry.key.as_str()) {
            break;
        }
        proof {
            assert(part.drop_last() =~= all.take(at - 1));
            assert(insert_entry(part.drop_last(), shown).push(part.last()) + all.skip(at as int)
                =~= insert_entry(all.take(at - 1), shown) + all.skip(at - 1));
        }
        at = at - 1;
    }
    list.insert(at, entry);
    assert(list.deep_view() =~= insert_entry(all, shown));
}

/// The entries in display order, each name once as far as its entries meet: the
/// first of them stays, so the user's own directory goes before the system's.
pub fn arrange(found: Vec<Entry>) -> (entries: Vec<Entry>)
    ensures
        entries.deep_view() == without_repeats(entries_of(ordered(keyed(found.deep_view())))),
{
    let ghost all = found.deep_view();
    let mut rest = found;
    let mut list: Vec<Keyed> = Vec::new();
    let ghost mut taken: int = 0;
    assert(all.skip(0) =~= all);
    assert(list.deep_view() =~= keyed(all.take(0)));
    while rest.len() > 0
        invariant
            0 <= taken <= all.len(),
            rest.deep_view() == all.skip(taken),
            list.deep_view() == keyed(all.take(taken)),
        decreases rest@.len(),
    {
        assert(all.skip(taken).len() == rest@.len());
        let ghost left = rest.deep_view();
        let ghost before = list.deep_view();
        let entry = rest.remove(0);
        assert(rest.deep_view() =~= left.drop_first());
        let key = to_lowercase(entry.name.as_str());
        let ghost shown = (key@, entry.deep_view());
        list.push(Keyed { key, entry });
        proof {
            assert(all.skip(taken)[0] == shown.1);
            assert(rest.deep_view() =~= all.skip(taken + 1));
            assert(list.deep_view() =~= before.push(shown));
            assert(list.deep_view() =~= keyed(all.take(taken + 1)));
            taken = taken + 1;
        }
    }
    assert(all.take(taken) =~= all);
    arrange_by(list)
}

/// The entries in the order of their keys, each name once as far as its entries
/// meet: the first of them stays.
pub fn arrange_by(found: Vec<Keyed>) -> (entries: Vec<Entry>)
    ensures
        entries.deep_view() == without_repeats(entries_of(ordered(found.deep_view()))),
{
    let ghost all = found.deep_view();
    let mut rest = found;
    let mut list: Vec<Keyed> = Vec::new();
    let ghost mut taken: int = 0;
    assert(all.skip(0) =~= all);
    assert(list.deep_view() =~= ordered(all.take(0)));
    while rest.len() > 0
        invariant
            0 <= taken <= all.len(),
            rest.deep_view() == all.skip(taken),
            list.deep_view() == ordered(all.take(taken)),
        decreases rest@.len(),
    {
        assert(all.skip(taken).len() == rest@.len());
        let ghost left = rest.deep_view();
        let entry = rest.remove(0);
        assert(rest.deep_view() =~= left.drop_first());
        proof {
            assert(all.skip(taken)[0] == entry.deep_view());
            assert(rest.deep_view() =~= all.skip(taken + 1));
            assert(all.take(taken + 1).drop_last() =~= all.take(taken));
            assert(all.take(taken + 1).last() == all[taken]);
            taken = taken + 1;
        }
        insert(&mut list, entry);
    }
    assert(all.take(taken) =~= all);
    drop_repeats(list)
}

/// The entries of a list without those that have the name of the one kept before
/// them.
fn drop_repeats(list: Vec<Keyed>) -> (kept: Vec<Entry>)
    ensures
        kept.deep_view() == without_repeats(entries_of(list.deep_view())),
{
    let ghost all = entries_of(list.deep_view());
    let mut rest = list;
    let mut kept: Vec<Entry> = Vec::new();
    let ghost mut taken: int = 0;
    assert(all.skip(0) =~= all);
    assert(kept.deep_view() =~= without_repeats(all.take(0)));
    while rest.len() > 0
        invariant
            0 <= taken <= all.len(),
            entries_of(rest.deep_view()) == all.skip(taken),
            kept.deep_view() == without_repeats(all.take(taken)),
        decreases rest@.len(),
    {
        assert(all.skip(taken).len() == rest@.len());
        let ghost left = rest.deep_view();
        let Keyed { key: _, entry } = rest.remove(0);
        assert(rest.deep_view() =~= left.drop_first());
        let ghost before = kept.deep_view();
        proof {
            assert(entries_of(left)[0] == entry.deep_view());
            assert(entries_of(rest.deep_view()) =~= entries_of(left).drop_first());
            assert(entries_of(rest.deep_view()) =~= all.skip(taken + 1));
            assert(all.take(taken + 1).drop_last() =~= all.take(taken));
            assert(all.take(taken + 1).last() == all[taken]);
            taken = taken + 1;
        }
        let n: usize = kept.len();
        if n > 0 {
            assert(before.last() == kept@[n - 1].deep_view());
        }
        if n == 0 || !same(kept[n - 1].name.as_str(), entry.name.as_str()) {
            kept.push(entry);
            assert(kept.deep_view() =~= before.push(entry.deep_view()));
        }
    }
    assert(all.take(taken) =~= all);
    kept
}

/// The applications on this machine, and how to start each one.
pub struct Applications {
    /// Ordered for display; the index is the id the browser sends back.
    names: Vec<Application>,
    /// The words that start each.
    commands: Vec<Vec<String>>,
    /// The `.desktop` files this listing was built from, so that it can be told
    /// when one has come or gone.
    sources: Vec<String>,
}

/// What an [`Applications`] holds.
#[verifier::ext_equal]
pub struct ApplicationsView {
    pub names: Seq<ApplicationView>,
    pub commands: Seq<Seq<Seq<char>>>,
    pub sources: Seq<Seq<char>>,
}

impl ApplicationsView {
    /// The listing once a fresh scan was offered.
    pub open spec fn taking_over(self, fresh: ApplicationsView) -> ApplicationsView {
        if as_paths(fresh.sources) == as_paths(self.sources) {
            self
        } else {
            fresh
        }
    }
}

/// A program to start, and what to start it with.
#[derive(Debug)]
pub struct Launch {
    pub program: String,
    pub args: Vec<String>,
}

impl ApplicationsView {
    /// Every application has a command, and its place is its id.
    pub open spec fn valid(self) -> bool {
        &&& self.names.len() == self.commands.len()
        &&& self.names.len() <= 0x1_0000_0000
        &&& forall|i: int| 0 <= i < self.names.len() ==> (#[trigger] self.names[i]).id == i
    }

    /// The words to start an application with, where there is one of that id.
    pub open spec fn launch_words(self, id: u32) -> Seq<Seq<char>> {
        if id < self.commands.len() {
            self.commands[id as int]
        } else {
            seq![]
        }
    }
}

/// The most applications there can be ids for.
pub open spec fn nameable(n: nat) -> nat {
    if n > 0x1_0000_0000 {
        0x1_0000_0000
    } else {
        n
    }
}

/// The words that start an application: those of its override, split as a shell
/// splits them, or those of its own command, split at white space.
pub open spec fn words_for(overrides: Seq<Pair>, entry: EntryView) -> Seq<Seq<char>> {
    match command_for(overrides, entry.name, entry.app_id) {
        Some(command) => shell_words(command),
        None => words(entry.command),
    }
}

/// The listing made of these entries, their icons and the launch overrides.
pub open spec fn built(
    entries: Seq<EntryView>,
    icons: Seq<Option<Seq<char>>>,
    overrides: Seq<Pair>,
    sources: Seq<Seq<char>>,
) -> ApplicationsView {
    let n = nameable(entries.len());
    ApplicationsView {
        names: Seq::new(
            n,
            |i: int|
                ApplicationView {
                    id: i as u32,
                    name: entries[i].name,
                    app_id: entries[i].app_id,
                    icon: icons[i],
                },
        ),
        commands: Seq::new(n, |i: int| words_for(overrides, entries[i])),
        sources,
    }
}

/// Paths, each by what it is made of.
pub open spec fn as_paths(list: Seq<Seq<char>>) -> Seq<Seq<ComponentView>> {
    list.map_values(|path: Seq<char>| components(path))
}

/// Whether two lists of paths are the same.
fn same_paths(one: &Vec<String>, other: &Vec<String>) -> (equal: bool)
    ensures
        equal == (as_paths(one.deep_view()) == as_paths(other.deep_view())),
{
    let ghost these = as_paths(one.deep_view());
    let ghost those = as_paths(other.deep_view());
    if one.len() != other.len() {
        assert(these.len() != those.len());
        return false;
    }
    let mut i: usize = 0;
    while i < one.len()
        invariant
            i <= one@.len(),
            one@.len() == other@.len(),
            these == as_paths(one.deep_view()),
            those == as_paths(other.deep_view()),
            forall|j: int| 0 <= j < i ==> these[j] == those[j],
        decreases one@.len() - i,
    {
        assert(these[i as int] == components(one@[i as int]@));
        assert(those[i as int] == components(other@[i as int]@));
        if !is_same_path(one[i].as_str(), other[i].as_str()) {
            return false;
        }
        i = i + 1;
    }
    assert(these =~= those);
    true
}

/// Whether two applications are listed the same.
fn same_application(one: &Application, other: &Application) -> (equal: bool)
    ensures
        equal == (one.deep_view() == other.deep_view()),
{
    let icons = match (&one.icon, &other.icon) {
        (None, None) => true,
        (Some(a), Some(b)) => *a == *b,
        _ => false,
    };
    let equal = one.id == other.id && one.name == other.name && one.app_id == other.app_id
        && icons;
    proof {
        if equal {
            assert(one.deep_view() =~= other.deep_view());
        }
    }
    equal
}

/// Whether two listings are the same.
fn same_listing(one: &Vec<Application>, other: &Vec<Application>) -> (equal: bool)
    ensures
        equal == (one.deep_view() == other.deep_view()),
{
    if one.len() != other.len() {
        assert(one.deep_view().len() != other.deep_view().len());
        return false;
    }
    let mut i: usize = 0;
    while i < one.len()
        invariant
            i <= one@.len(),
            one@.len() == other@.len(),
            forall|j: int| 0 <= j < i ==> one.deep_view()[j] == other.deep_view()[j],
        decreases one@.len() - i,
    {
        assert(one.deep_view()[i as int] == one@[i as int].deep_view());
        assert(other.deep_view()[i as int] == other@[i as int].deep_view());
        if !same_application(&one[i], &other[i]) {
            return false;
        }
        i = i + 1;
    }
    assert(one.deep_view() =~= other.deep_view());
    true
}

impl Applications {
    pub closed spec fn view(&self) -> ApplicationsView {
        ApplicationsView {
            names: self.names.deep_view(),
            commands: self.commands.deep_view(),
            sources: self.sources.deep_view(),
        }
    }

    #[verifier::type_invariant]
    spec fn well_formed(&self) -> bool {
        self.view().valid()
    }

    /// Build the listing from the entries in display order, what became of the
    /// icon of each, the launch overrides, and the files it was read from.
    pub fn build(
        entries: Vec<Entry>,
        icons: Vec<Option<String>>,
        overrides: &Overrides,
        sources: Vec<String>,
    ) -> (listing: Self)
        requires
            icons@.len() == entries@.len(),
        ensures
            listing@ == built(
                entries.deep_view(),
                icons.deep_view(),
                overrides@,
                sources.deep_view(),
            ),
            listing@.valid(),
    {
        let ghost shown = entries.deep_view();
        let ghost pictures = icons.deep_view();
        let ghost wanted = built(shown, pictures, overrides@, sources.deep_view());
        let mut names: Vec<Application> = Vec::new();
        let mut commands: Vec<Vec<String>> = Vec::new();
        let mut i: usize = 0;
        while i < entries.len() && i as u64 <= u32::MAX as u64
            invariant
                icons@.len() == entries@.len(),
                shown == entries.deep_view(),
                pictures == icons.deep_view(),
                wanted == built(shown, pictures, overrides@, sources.deep_view()),
                i <= wanted.names.len(),
                names@.len() == i,
                commands@.len() == i,
                forall|j: int| 0 <= j < i ==> names.deep_view()[j] == wanted.names[j],
                forall|j: int| 0 <= j < i ==> commands.deep_view()[j] == wanted.commands[j],
            decreases entries@.len() - i,
        {
            let entry = &entries[i];
            let icon = match &icons[i] {
                Some(url) => Some(url.clone()),
                None => None,
            };
            let command = match overrides.command_for(entry.name.as_str(), entry.app_id.as_str()) {
                Some(written) => shell_split(written.as_str(), false),
                None => split_whitespace(entry.command.as_str()),
            };
            let name = Application {
                id: i as u32,
                name: entry.name.clone(),
                app_id: entry.app_id.clone(),
                icon,
            };
            proof {
                assert(shown[i as int] == entries@[i as int].deep_view());
                assert(pictures[i as int] == icons@[i as int].deep_view());
                assert(name.deep_view() =~= wanted.names[i as int]);
            }
            let ghost before = names.deep_view();
            let ghost earlier = commands.deep_view();
            names.push(name);
            commands.push(command);
            proof {
                assert(names.deep_view() =~= before.push(name.deep_view()));
                assert(commands.deep_view() =~= earlier.push(command.deep_view()));
            }
            i = i + 1;
        }
        proof {
            assert(names.deep_view() =~= wanted.names);
            assert(commands.deep_view() =~= wanted.commands);
        }
        Applications { names, commands, sources }
    }

    /// Whether an application has been installed or removed since: whether these
    /// are not the files the listing was built from.
    ///
    /// Names rather than the directories' modification times: those are only as
    /// fine as a timer tick, so a removal in the same tick as the last look would
    /// leave a dead entry in the launcher for the rest of the session.
    pub fn is_stale(&self, sources: &Vec<String>) -> (stale: bool)
        ensures
            stale == (as_paths(sources.deep_view()) != as_paths(self@.sources)),
    {
        !same_paths(sources, &self.sources)
    }

    /// Take over a fresh scan. Returns whether the listing changed, and so wants
    /// announcing to the browser. A scan of the same files changes nothing.
    pub fn refresh(&mut self, fresh: Applications) -> (changed: bool)
        ensures
            final(self)@ == old(self)@.taking_over(fresh@),
            if as_paths(fresh@.sources) == as_paths(old(self)@.sources) {
                !changed && final(self)@ == old(self)@
            } else {
                changed == (fresh@.names != old(self)@.names) && final(self)@ == fresh@
            },
    {
        if same_paths(&fresh.sources, &self.sources) {
            return false;
        }
        let changed = !same_listing(&fresh.names, &self.names);
        *self = fresh;
        changed
    }

    /// The list to show, in display order.
    #[must_use]
    pub fn listing(&self) -> (list: Vec<Application>)
        ensures
            list.deep_view() == self@.names,
    {
        let mut list: Vec<Application> = Vec::new();
        let mut i: usize = 0;
        while i < self.names.len()
            invariant
                i <= self.names@.len(),
                list@.len() == i,
                forall|j: int| 0 <= j < i ==> list.deep_view()[j] == self.names.deep_view()[j],
            decreases self.names@.len() - i,
        {
            let ghost before = list.deep_view();
            let copy = self.names[i].clone();
            list.push(copy);
            proof {
                assert(list.deep_view() =~= before.push(copy.deep_view()));
                assert(self.names.deep_view()[i as int] == self.names@[i as int].deep_view());
            }
            i = i + 1;
        }
        assert(list.deep_view() =~= self.names.deep_view());
        list
    }

    /// What to start for an id.
    ///
    /// The id must have come from the listing; an unknown one is ignored rather
    /// than guessed at. That is the whole point of naming applications: a
    /// launcher cannot become a way to run arbitrary programs on the host.
    pub fn launch(&self, id: u32) -> (launch: Option<Launch>)
        ensures
            match launch {
                Some(start) => {
                    &&& self@.launch_words(id).len() > 0
                    &&& start.program@ == self@.launch_words(id)[0]
                    &&& start.args.deep_view() == self@.launch_words(id).drop_first()
                },
                None => self@.launch_words(id).len() == 0,
            },
    {
        if id as u64 >= self.commands.len() as u64 {
            return None;
        }
        let command = &self.commands[id as usize];
        let ghost all = command.deep_view();
        assert(self@.commands[id as int] == all);
        if command.len() == 0 {
            return None;
        }
        let program = command[0].clone();
        assert(all[0] == program@);
        let mut args: Vec<String> = Vec::new();
        let mut i: usize = 1;
        assert(args.deep_view() =~= all.subrange(1, 1));
        while i < command.len()
            invariant
                1 <= i <= command@.len(),
                all == command.deep_view(),
                args.deep_view() == all.subrange(1, i as int),
            decreases command@.len() - i,
        {
            assert(all[i as int] == command@[i as int]@);
            push_text(&mut args, command[i].clone());
            assert(args.deep_view() =~= all.subrange(1, i + 1));
            i = i + 1;
        }
        assert(args.deep_view() =~= all.drop_first());
        Some(Launch { program, args })
    }
}

/// Only what is listed can be started: an id beyond the listing starts nothing.
pub proof fn only_listed_applications_start(listing: ApplicationsView, id: u32)
    requires
        listing.valid(),
        id >= listing.names.len(),
    ensures
        listing.launch_words(id).len() == 0,
{
}

/// Every listed application starts its own command: the id that the browser is
/// given for an entry starts the override for that entry, or the entry's own
/// command where it has none.
pub proof fn a_listed_id_starts_its_own_command(
    entries: Seq<EntryView>,
    icons: Seq<Option<Seq<char>>>,
    overrides: Seq<Pair>,
    sources: Seq<Seq<char>>,
    i: int,
)
    requires
        0 <= i < nameable(entries.len()),
    ensures
        ({
            let listing = built(entries, icons, overrides, sources);
            &&& listing.names[i].name == entries[i].name
            &&& listing.launch_words(listing.names[i].id) == words_for(overrides, entries[i])
        }),
{
}

/// The directories holding `.desktop` files, the user's own first.
pub fn dirs(home: &str) -> (list: Vec<String>)
    ensures
        list.deep_view() == seq![
            home@ + "/.local/share/applications"@,
            "/usr/share/applications"@,
        ],
{
    let mut list: Vec<String> = Vec::new();
    push_text(&mut list, home.to_owned().concat("/.local/share/applications"));
    push_text(&mut list, "/usr/share/applications".to_owned());
    assert(list.deep_view() =~= seq![
        home@ + "/.local/share/applications"@,
        "/usr/share/applications"@,
    ]);
    list
}

/// Where the user's launch overrides are: under the configuration directory,
/// which the environment may name.
pub fn overrides_path(home: &str, config: &Option<String>) -> (path: String)
    ensures
        path@ == (match config {
            Some(dir) => dir@ + "/webland/launch.conf"@,
            None => home@ + "/.config/webland/launch.conf"@,
        }),
{
    match config {
        Some(dir) => dir.as_str().to_owned().concat("/webland/launch.conf"),
        None => home.to_owned().concat("/.config/webland/launch.conf"),
    }
}

/// The `.desktop` files among these paths, in the order of what they are made of.
pub open spec fn desktop_files(paths: Seq<Seq<char>>) -> Seq<Seq<char>>
    decreases paths.len(),
{
    if paths.len() == 0 {
        seq![]
    } else if has_extension(paths.last(), "desktop"@) {
        insert_path(desktop_files(paths.drop_last()), paths.last())
    } else {
        desktop_files(paths.drop_last())
    }
}

/// An ordered list with one more path in it.
pub open spec fn insert_path(list: Seq<Seq<char>>, path: Seq<char>) -> Seq<Seq<char>>
    decreases list.len(),
{
    if list.len() == 0 || path_first(list.last(), path) {
        list.push(path)
    } else {
        insert_path(list.drop_last(), path).push(list.last())
    }
}

/// Put a path into an ordered list.
fn place(list: &mut Vec<String>, path: String)
    ensures
        final(list).deep_view() == insert_path(old(list).deep_view(), path@),
{
    let ghost all = list.deep_view();
    let ghost shown = path@;
    let mut at: usize = list.len();
    proof {
        assert(all.take(at as int) =~= all);
        assert(insert_path(all, shown) + all.skip(at as int) =~= insert_path(all, shown));
    }
    loop
        invariant
            at <= list@.len(),
            list.deep_view() == all,
            path@ == shown,
            insert_path(all, shown) == insert_path(all.take(at as int), shown) + all.skip(
                at as int,
            ),
        ensures
            at <= list@.len(),
            list.deep_view() == all,
            insert_path(all, shown) == all.take(at as int).push(shown) + all.skip(at as int),
        decreases at,
    {
        let ghost part = all.take(at as int);
        if at == 0 {
            break;
        }
        assert(part.last() == list@[at - 1]@);
        if is_path_first(list[at - 1].as_str(), path.as_str()) {
            break;
        }
        proof {
            assert(part.drop_last() =~= all.take(at - 1));
            assert(insert_path(part.drop_last(), shown).push(part.last()) + all.skip(at as int)
                =~= insert_path(all.take(at - 1), shown) + all.skip(at - 1));
        }
        at = at - 1;
    }
    list.insert(at, path);
    assert(list.deep_view() =~= insert_path(all, shown));
}

/// Every `.desktop` file among the paths that the directories hold, in a stable
/// order: a directory's own order is the filesystem's, and need not repeat.
pub fn sources(paths: &Vec<String>) -> (list: Vec<String>)
    ensures
        list.deep_view() == desktop_files(paths.deep_view()),
{
    let ghost all = paths.deep_view();
    let mut list: Vec<String> = Vec::new();
    let mut i: usize = 0;
    assert(list.deep_view() =~= desktop_files(all.take(0)));
    while i < paths.len()
        invariant
            i <= paths@.len(),
            all == paths.deep_view(),
            list.deep_view() == desktop_files(all.take(i as int)),
        decreases paths@.len() - i,
    {
        proof {
            assert(all.take(i + 1).drop_last() =~= all.take(i as int));
            assert(all.take(i + 1).last() == paths@[i as int]@);
        }
        if is_of_type(paths[i].as_str(), "desktop") {
            place(&mut list, paths[i].clone());
        }
        i = i + 1;
    }
    assert(all.take(i as int) =~= all);
    list
}

/// Whether every entry may stand in front of all those behind it.
pub open spec fn reads_in_order(list: Seq<KeyedView>) -> bool {
    forall|i: int, j: int|
        0 <= i < j < list.len() ==> in_order(#[trigger] list[i], #[trigger] list[j])
}

proof fn inserting_keeps_order(list: Seq<KeyedView>, entry: KeyedView)
    requires
        reads_in_order(list),
    ensures
        reads_in_order(insert_entry(list, entry)),
        entries_of(insert_entry(list, entry)).to_multiset() == entries_of(
            list,
        ).to_multiset().insert(entry.1),
        forall|i: int|
            0 <= i < insert_entry(list, entry).len() ==> list.contains(
                #[trigger] insert_entry(list, entry)[i],
            ) || insert_entry(list, entry)[i] == entry,
    decreases list.len(),
{
    broadcast use vstd::seq_lib::group_to_multiset_ensures;

    let after = insert_entry(list, entry);
    if list.len() == 0 || in_order(list.last(), entry) {
        assert(entries_of(after) =~= entries_of(list).push(entry.1));
        assert forall|i: int, j: int| 0 <= i < j < after.len() implies in_order(
            #[trigger] after[i],
            #[trigger] after[j],
        ) by {
            if j == list.len() && i < list.len() - 1 {
                assert(in_order(list[i], list[list.len() - 1]));
                order_is_transitive(list[i].0, list.last().0, entry.0);
            }
        }
        assert forall|i: int| 0 <= i < after.len() implies list.contains(#[trigger] after[i])
            || after[i] == entry by {
            if i < list.len() {
                assert(after[i] == list[i]);
            }
        }
    } else {
        let front = list.drop_last();
        let last = list.last();
        assert(reads_in_order(front)) by {
            assert forall|i: int, j: int| 0 <= i < j < front.len() implies in_order(
                #[trigger] front[i],
                #[trigger] front[j],
            ) by {
                assert(in_order(list[i], list[j]));
            }
        }
        inserting_keeps_order(front, entry);
        let head = insert_entry(front, entry);
        assert(entries_of(front).push(last.1) =~= entries_of(list));
        assert(entries_of(after) =~= entries_of(head).push(last.1));
        assert(entries_of(after).to_multiset() =~= entries_of(list).to_multiset().insert(entry.1));
        order_is_total(entry.0, last.0);
        assert forall|i: int, j: int| 0 <= i < j < after.len() implies in_order(
            #[trigger] after[i],
            #[trigger] after[j],
        ) by {
            if j == head.len() {
                assert(after[i] == head[i]);
                assert(after[j] == last);
                if head[i] != entry {
                    assert(front.contains(head[i]));
                    let k = choose|k: int| 0 <= k < front.len() && front[k] == head[i];
                    assert(in_order(list[k], list[list.len() - 1]));
                }
            }
        }
        assert forall|i: int| 0 <= i < after.len() implies list.contains(#[trigger] after[i])
            || after[i] == entry by {
            if i < head.len() {
                assert(after[i] == head[i]);
                if head[i] != entry {
                    let k = choose|k: int| 0 <= k < front.len() && front[k] == head[i];
                    assert(list[k] == after[i]);
                }
            } else {
                assert(list[list.len() - 1] == last);
            }
        }
    }
}

/// An ordered list holds what it was made of, in order.
proof fn ordering_keeps_entries(list: Seq<KeyedView>)
    ensures
        reads_in_order(ordered(list)),
        entries_of(ordered(list)).to_multiset() == entries_of(list).to_multiset(),
        forall|i: int| 0 <= i < ordered(list).len() ==> list.contains(#[trigger] ordered(list)[i]),
    decreases list.len(),
{
    broadcast use vstd::seq_lib::group_to_multiset_ensures;

    if list.len() > 0 {
        let front = list.drop_last();
        ordering_keeps_entries(front);
        inserting_keeps_order(ordered(front), list.last());
        assert(entries_of(front).push(list.last().1) =~= entries_of(list));
        assert forall|i: int| 0 <= i < ordered(list).len() implies list.contains(
            #[trigger] ordered(list)[i],
        ) by {
            let one = ordered(list)[i];
            if one == list.last() {
                assert(list[list.len() - 1] == one);
            } else {
                assert(ordered(front).contains(one));
                let k = choose|k: int| 0 <= k < ordered(front).len() && ordered(front)[k] == one;
                assert(front.contains(ordered(front)[k]));
                let m = choose|m: int| 0 <= m < front.len() && front[m] == one;
                assert(list[m] == one);
            }
        }
    } else {
        assert(entries_of(ordered(list)) =~= entries_of(list));
    }
}

/// The launcher's list reads in order, upper and lower case alike, and holds
/// exactly the entries that were found.
pub proof fn the_listing_reads_in_order(found: Seq<EntryView>)
    ensures
        ({
            let list = entries_of(ordered(keyed(found)));
            &&& forall|i: int, j: int|
                0 <= i < j < list.len() ==> comes_first(
                    lowercase((#[trigger] list[i]).name),
                    lowercase((#[trigger] list[j]).name),
                )
            &&& list.to_multiset() == found.to_multiset()
        }),
{
    let pairs = ordered(keyed(found));
    let list = entries_of(pairs);
    ordering_keeps_entries(keyed(found));
    assert(entries_of(keyed(found)) =~= found);
    assert forall|i: int, j: int| 0 <= i < j < list.len() implies comes_first(
        lowercase((#[trigger] list[i]).name),
        lowercase((#[trigger] list[j]).name),
    ) by {
        assert(in_order(pairs[i], pairs[j]));
        assert(keyed(found).contains(pairs[i]));
        assert(keyed(found).contains(pairs[j]));
    }
}

/// Whether every path comes before all those behind it.
pub open spec fn paths_in_order(list: Seq<Seq<ComponentView>>) -> bool {
    forall|i: int, j: int|
        0 <= i < j < list.len() ==> components_first(#[trigger] list[i], #[trigger] list[j])
}

proof fn placing_keeps_order(list: Seq<Seq<char>>, path: Seq<char>)
    requires
        paths_in_order(as_paths(list)),
    ensures
        paths_in_order(as_paths(insert_path(list, path))),
        as_paths(insert_path(list, path)).to_multiset() == as_paths(list).to_multiset().insert(
            components(path),
        ),
    decreases list.len(),
{
    broadcast use vstd::seq_lib::group_to_multiset_ensures;

    let made = components(path);
    let before = as_paths(list);
    let after = as_paths(insert_path(list, path));
    if list.len() == 0 || path_first(list.last(), path) {
        assert(after =~= before.push(made));
        assert forall|i: int, j: int| 0 <= i < j < after.len() implies components_first(
            #[trigger] after[i],
            #[trigger] after[j],
        ) by {
            if j < list.len() {
                assert(components_first(before[i], before[j]));
            } else if i < list.len() - 1 {
                assert(components_first(before[i], before[list.len() - 1]));
                path_order_is_transitive(before[i], before[list.len() - 1], made);
            }
        }
    } else {
        let front = list.drop_last();
        let last = components(list.last());
        let ahead = as_paths(front);
        let head = as_paths(insert_path(front, path));
        assert(before =~= ahead.push(last));
        assert forall|i: int, j: int| 0 <= i < j < ahead.len() implies components_first(
            #[trigger] ahead[i],
            #[trigger] ahead[j],
        ) by {
            assert(components_first(before[i], before[j]));
        }
        placing_keeps_order(front, path);
        assert(after =~= head.push(last));
        assert(after.to_multiset() =~= before.to_multiset().insert(made));
        paths_are_ordered(made, last);
        assert forall|i: int, j: int| 0 <= i < j < after.len() implies components_first(
            #[trigger] after[i],
            #[trigger] after[j],
        ) by {
            if j < head.len() {
                assert(components_first(head[i], head[j]));
            } else if head[i] != made {
                assert(head.to_multiset().count(head[i]) > 0) by {
                    assert(head.contains(head[i]));
                }
                assert(ahead.to_multiset().count(head[i]) > 0);
                assert(ahead.contains(head[i]));
                let k = choose|k: int| 0 <= k < ahead.len() && ahead[k] == head[i];
                assert(components_first(before[k], before[before.len() - 1]));
            }
        }
    }
}

proof fn sources_are_in_order(paths: Seq<Seq<char>>)
    ensures
        paths_in_order(as_paths(desktop_files(paths))),
    decreases paths.len(),
{
    if paths.len() > 0 {
        sources_are_in_order(paths.drop_last());
        placing_keeps_order(desktop_files(paths.drop_last()), paths.last());
    }
}

/// What the files among some paths are made of, whatever their order.
spec fn made_of(paths: Seq<Seq<char>>) -> Multiset<Seq<ComponentView>> {
    as_paths(desktop_files(paths)).to_multiset()
}

proof fn one_path_more(paths: Seq<Seq<char>>, k: int)
    requires
        0 <= k < paths.len(),
    ensures
        made_of(paths) == (if has_extension(paths[k], "desktop"@) {
            made_of(paths.remove(k)).insert(components(paths[k]))
        } else {
            made_of(paths.remove(k))
        }),
    decreases paths.len(),
{
    let front = paths.drop_last();
    let last = paths.last();
    sources_are_in_order(front);
    placing_keeps_order(desktop_files(front), last);
    if k == paths.len() - 1 {
        assert(paths.remove(k) =~= front);
    } else {
        let fewer = paths.remove(k);
        one_path_more(front, k);
        assert(fewer.drop_last() =~= front.remove(k));
        assert(fewer.last() == last);
        sources_are_in_order(fewer.drop_last());
        placing_keeps_order(desktop_files(fewer.drop_last()), last);
        let rest = made_of(front.remove(k));
        assert(rest.insert(components(paths[k])).insert(components(last)) =~= rest.insert(
            components(last),
        ).insert(components(paths[k])));
    }
}

proof fn same_paths_same_files(one: Seq<Seq<char>>, other: Seq<Seq<char>>)
    requires
        one.to_multiset() == other.to_multiset(),
    ensures
        made_of(one) == made_of(other),
    decreases one.len(),
{
    broadcast use vstd::seq_lib::group_to_multiset_ensures;

    if one.len() == 0 {
        assert(other.to_multiset().len() == 0);
        assert(other =~= one);
    } else {
        let last = one.len() - 1;
        let path = one[last];
        assert(one.to_multiset().count(path) > 0) by {
            assert(one.contains(path));
        }
        assert(other.contains(path));
        let k = choose|k: int| 0 <= k < other.len() && other[k] == path;
        assert(one.remove(last).to_multiset() =~= other.remove(k).to_multiset());
        same_paths_same_files(one.remove(last), other.remove(k));
        one_path_more(one, last);
        one_path_more(other, k);
    }
}

proof fn ordered_lists_are_the_same(
    one: Seq<Seq<ComponentView>>,
    other: Seq<Seq<ComponentView>>,
)
    requires
        paths_in_order(one),
        paths_in_order(other),
        one.to_multiset() == other.to_multiset(),
    ensures
        one == other,
    decreases one.len(),
{
    broadcast use vstd::seq_lib::group_to_multiset_ensures;

    assert(one.len() == one.to_multiset().len());
    assert(other.len() == other.to_multiset().len());
    if one.len() == 0 {
        assert(one =~= other);
    } else {
        let n = one.len() - 1;
        assert(one.contains(one[n]) && other.contains(other[n]));
        assert(one.to_multiset().count(other[n]) > 0);
        assert(other.to_multiset().count(one[n]) > 0);
        let i = choose|i: int| 0 <= i < one.len() && one[i] == other[n];
        let j = choose|j: int| 0 <= j < other.len() && other[j] == one[n];
        paths_are_ordered(one[n], other[n]);
        assert(one[n] == other[n]) by {
            if i < n && j < n {
                assert(components_first(one[i], one[n]));
                assert(components_first(other[j], other[n]));
            }
        }
        let front = one.remove(n);
        let ahead = other.remove(n);
        assert forall|a: int, b: int| 0 <= a < b < front.len() implies components_first(
            #[trigger] front[a],
            #[trigger] front[b],
        ) by {
            assert(components_first(one[a], one[b]));
        }
        assert forall|a: int, b: int| 0 <= a < b < ahead.len() implies components_first(
            #[trigger] ahead[a],
            #[trigger] ahead[b],
        ) by {
            assert(components_first(other[a], other[b]));
        }
        assert(front.to_multiset() =~= ahead.to_multiset());
        ordered_lists_are_the_same(front, ahead);
        assert(one =~= front.push(one[n]));
        assert(other =~= ahead.push(other[n]));
    }
}

/// A directory's own order does not matter: the same paths in another order make
/// the same list of files, so only a file that came or went makes a listing stale.
pub proof fn the_order_of_a_directory_does_not_matter(one: Seq<Seq<char>>, other: Seq<Seq<char>>)
    requires
        one.to_multiset() == other.to_multiset(),
    ensures
        as_paths(desktop_files(one)) == as_paths(desktop_files(other)),
{
    sources_are_in_order(one);
    sources_are_in_order(other);
    same_paths_same_files(one, other);
    ordered_lists_are_the_same(as_paths(desktop_files(one)), as_paths(desktop_files(other)));
}

/// What is started for an id is its words: the first is the program and the rest
/// are what it is given, in order; nothing is started where there are none.
pub proof fn a_launch_is_its_words(
    applications: &Applications,
    id: u32,
    launch: Option<Launch>,
)
    requires
        call_ensures(Applications::launch, (applications, id), launch),
    ensures
        match launch {
            Some(start) => seq![start.program@] + start.args.deep_view()
                == applications@.launch_words(id),
            None => applications@.launch_words(id).len() == 0,
        },
{
    if let Some(start) = launch {
        let all = applications@.launch_words(id);
        assert(seq![start.program@] + start.args.deep_view() =~= all);
    }
}

/// Each entry is listed under its own name and its own file's name, with its own
/// icon, and its id is its place.
pub proof fn an_entry_is_listed_as_it_is(
    entries: Seq<EntryView>,
    icons: Seq<Option<Seq<char>>>,
    overrides: Seq<Pair>,
    sources: Seq<Seq<char>>,
    i: int,
)
    requires
        entries.len() == icons.len(),
        entries.len() <= 0x1_0000_0000,
        0 <= i < entries.len(),
    ensures
        ({
            let listing = built(entries, icons, overrides, sources);
            &&& listing.names.len() == entries.len()
            &&& listing.names[i].id == i
            &&& listing.names[i].name == entries[i].name
            &&& listing.names[i].app_id == entries[i].app_id
            &&& listing.names[i].icon == icons[i]
            &&& command_for(overrides, entries[i].name, entries[i].app_id) is None
                ==> listing.commands[i] == words(entries[i].command)
            &&& command_for(overrides, entries[i].name, entries[i].app_id) matches Some(command)
                ==> listing.commands[i] == shell_words(command)
        }),
{
}

proof fn inserting_is_stable(list: Seq<KeyedView>, entry: KeyedView, key: Seq<char>)
    ensures
        ({
            let same_key = |one: KeyedView| one.0 == key;
            insert_entry(list, entry).filter(same_key) == list.push(entry).filter(same_key)
        }),
    decreases list.len(),
{
    let same_key = |one: KeyedView| one.0 == key;
    reveal(Seq::filter);
    assert(list.push(entry).drop_last() =~= list);
    if list.len() == 0 || in_order(list.last(), entry) {
    } else {
        let front = list.drop_last();
        let last = list.last();
        inserting_is_stable(front, entry, key);
        assert(front.push(entry).drop_last() =~= front);
        let after = insert_entry(front, entry);
        assert(after.push(last).drop_last() =~= after);
        if last.0 == entry.0 {
            order_is_total(last.0, entry.0);
        }
        let some = front.filter(same_key);
        assert(list.filter(same_key) == (if last.0 == key {
            some.push(last)
        } else {
            some
        }));
        assert(front.push(entry).filter(same_key) == (if entry.0 == key {
            some.push(entry)
        } else {
            some
        }));
        assert(list.push(entry).filter(same_key) == (if entry.0 == key {
            list.filter(same_key).push(entry)
        } else {
            list.filter(same_key)
        }));
    }
}

/// Entries that read the same keep the order they were found in, so that the
/// user's own come before the system's.
pub proof fn what_reads_the_same_keeps_its_order(list: Seq<KeyedView>, key: Seq<char>)
    ensures
        ordered(list).filter(|one: KeyedView| one.0 == key) == list.filter(
            |one: KeyedView| one.0 == key,
        ),
    decreases list.len(),
{
    let same_key = |one: KeyedView| one.0 == key;
    reveal(Seq::filter);
    if list.len() > 0 {
        let front = list.drop_last();
        what_reads_the_same_keeps_its_order(front, key);
        inserting_is_stable(ordered(front), list.last(), key);
        assert(ordered(front).push(list.last()).drop_last() =~= ordered(front));
    }
}

/// Of entries of one name that meet, the first stays and the others go; every
/// name that was there still is, and no two that are left next to each other are
/// the same.
pub proof fn the_first_of_a_name_stays(list: Seq<EntryView>, i: int)
    requires
        0 <= i < list.len(),
    ensures
        ({
            let kept = without_repeats(list);
            &&& kept.len() > 0
            &&& kept[0] == list[0]
            &&& kept.last().name == list.last().name
            &&& exists|k: int| 0 <= k < kept.len() && (#[trigger] kept[k]).name == list[i].name
            &&& forall|k: int|
                0 <= k < kept.len() - 1 ==> (#[trigger] kept[k]).name != kept[k + 1].name
            &&& i > 0 && list[i - 1].name != list[i].name ==> kept.contains(list[i])
            &&& forall|k: int| 0 <= k < kept.len() ==> list.contains(#[trigger] kept[k])
        }),
    decreases list.len(),
{
    let kept = without_repeats(list);
    let front = list.drop_last();
    let before = without_repeats(front);
    let n = front.len() as int;
    if n == 0 {
        assert(before.len() == 0);
        assert(kept =~= seq![list[0]]);
        assert(kept[0].name == list[0].name);
    } else {
        let j = if i < n {
            i
        } else {
            n - 1
        };
        the_first_of_a_name_stays(front, j);
        assert(front[j] == list[j]);
        assert(front.last() == list[n - 1]);
        assert forall|k: int| 0 <= k < kept.len() implies list.contains(#[trigger] kept[k]) by {
            if k < before.len() {
                assert(kept[k] == before[k]);
                let m = choose|m: int| 0 <= m < front.len() && front[m] == before[k];
                assert(list[m] == kept[k]);
            } else {
                assert(list[n] == kept[k]);
            }
        }
        if i < n {
            let k = choose|k: int|
                0 <= k < before.len() && (#[trigger] before[k]).name == front[i].name;
            assert(kept[k].name == list[i].name);
            if i > 0 && list[i - 1].name != list[i].name {
                assert(front[i - 1] == list[i - 1]);
                let m = choose|m: int| 0 <= m < before.len() && before[m] == list[i];
                assert(kept[m] == list[i]);
            }
        } else {
            assert(kept[kept.len() - 1].name == list[n].name);
            if list[n - 1].name != list[n].name {
                assert(kept[before.len() as int] == list[n]);
            }
        }
        assert forall|k: int| 0 <= k < kept.len() - 1 implies (#[trigger] kept[k]).name != kept[k
            + 1].name by {
            if k + 1 < before.len() {
                assert(kept[k] == before[k]);
            }
        }
    }
}

/// The user's own files come before the machine's, and the overrides are under the
/// directory that is named for configuration, or else under the home directory.
pub proof fn the_users_own_files_come_first(
    home: &str,
    list: Vec<String>,
    config: Option<String>,
    path: String,
)
    requires
        call_ensures(dirs, (home,), list),
        call_ensures(overrides_path, (home, &config), path),
    ensures
        list.deep_view().len() > 1,
        begins_with(list.deep_view()[0], home@),
        config is Some ==> begins_with(path@, config->0@),
        config is None ==> begins_with(path@, home@),
{
    assert(list.deep_view()[0] =~= home@ + "/.local/share/applications"@);
    assert(list.deep_view()[0].take(home@.len() as int) =~= home@);
    match config {
        Some(dir) => {
            assert(path@.take(dir@.len() as int) =~= dir@);
        },
        None => {
            assert(path@.take(home@.len() as int) =~= home@);
        },
    }
}

/// Scanning again what was scanned before changes nothing, and is no news. A scan
/// of other files is taken over whole.
pub proof fn a_scan_is_taken_over_where_the_files_changed(
    before: ApplicationsView,
    fresh: ApplicationsView,
)
    ensures
        before.taking_over(before) == before,
        fresh.sources == before.sources ==> before.taking_over(fresh) == before,
        as_paths(fresh.sources) != as_paths(before.sources) ==> before.taking_over(fresh) == fresh,
{
}

} // verus!
