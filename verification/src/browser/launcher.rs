//! The application launcher: a search box over what the compositor found
//! installed, and one button per match.

use crate::browser::scene::{nothing, perform, Effect, EffectView, Shell, ShellView};
use crate::protocol::messages::{Application, ApplicationView, ClientMessage, ClientMessageView};
use crate::text::{contains_text, holds, lowercase, same, to_lowercase};
use vstd::prelude::*;

verus! {

/// How many matches are worth drawing. Nobody scrolls a launcher.
pub const SHOWN: usize = 40;

/// What was typed into the search box, and the match selected.
#[derive(Debug)]
pub struct Search {
    pub filter: String,
    pub selected: usize,
}

/// What a [`Search`] says.
#[verifier::ext_equal]
pub struct SearchView {
    pub filter: Seq<char>,
    pub selected: int,
}

impl View for Search {
    type V = SearchView;

    open spec fn view(&self) -> SearchView {
        SearchView { filter: self.filter@, selected: self.selected as int }
    }
}

/// The places of those of the first `n` names that hold what was typed, no more
/// than fit. Both are in lower case.
pub open spec fn shown(names: Seq<Seq<char>>, needle: Seq<char>, n: int) -> Seq<int>
    decreases n,
{
    if n <= 0 {
        Seq::empty()
    } else {
        let before = shown(names, needle, n - 1);
        if before.len() < SHOWN && (needle.len() == 0 || holds(names[n - 1], needle)) {
            before.push(n - 1)
        } else {
            before
        }
    }
}

/// The places of the names that hold what was typed, both in lower case. A plain
/// substring match: a launcher people type two letters into does not need fuzzy
/// ranking to be useful, and the list is short.
pub fn places(names: &Vec<String>, needle: &str) -> (found: Vec<usize>)
    ensures
        found@.map_values(|i: usize| i as int) == shown(
            names.deep_view(),
            needle@,
            names@.len() as int,
        ),
        forall|k: int| 0 <= k < found@.len() ==> (#[trigger] found@[k]) < names@.len(),
{
    let ghost all = names.deep_view();
    let empty = needle.unicode_len() == 0;
    let mut found: Vec<usize> = Vec::new();
    let mut i: usize = 0;
    assert(found@.map_values(|k: usize| k as int) =~= shown(all, needle@, 0));
    while i < names.len()
        invariant
            all == names.deep_view(),
            empty == (needle@.len() == 0),
            i <= names@.len(),
            found@.map_values(|k: usize| k as int) == shown(all, needle@, i as int),
            forall|k: int| 0 <= k < found@.len() ==> (#[trigger] found@[k]) < i,
        decreases names@.len() - i,
    {
        let ghost before = found@.map_values(|k: usize| k as int);
        assert(before.len() == found@.len());
        assert(all[i as int] == names@[i as int]@);
        if found.len() < SHOWN && (empty || contains_text(names[i].as_str(), needle)) {
            found.push(i);
            assert(found@.map_values(|k: usize| k as int) =~= before.push(i as int));
        }
        i += 1;
    }
    found
}

/// The names of the applications, in lower case.
pub open spec fn lowered(applications: Seq<ApplicationView>) -> Seq<Seq<char>> {
    applications.map_values(|app: ApplicationView| lowercase(app.name))
}

/// The applications at these places.
pub open spec fn chosen(applications: Seq<ApplicationView>, places: Seq<int>) -> Seq<
    ApplicationView,
> {
    places.map_values(|i: int| applications[i])
}

/// The applications that the launcher lists for what was typed.
pub open spec fn matches(applications: Seq<ApplicationView>, filter: Seq<char>) -> Seq<
    ApplicationView,
> {
    chosen(
        applications,
        shown(lowered(applications), lowercase(filter), applications.len() as int),
    )
}

/// The applications that the launcher lists for what was typed: those whose name
/// holds it, whatever the case, in their order, up to as many as are shown.
pub fn matching(applications: &Vec<Application>, filter: &str) -> (found: Vec<Application>)
    ensures
        found.deep_view() == matches(applications.deep_view(), filter@),
{
    let ghost all = applications.deep_view();
    let needle = to_lowercase(filter);
    let mut names: Vec<String> = Vec::new();
    let mut i: usize = 0;
    while i < applications.len()
        invariant
            all == applications.deep_view(),
            i <= applications@.len(),
            names.deep_view() =~= lowered(all).take(i as int),
        decreases applications@.len() - i,
    {
        assert(all[i as int] == applications@[i as int].deep_view());
        let ghost before = names.deep_view();
        let name = to_lowercase(applications[i].name.as_str());
        let ghost low = name@;
        names.push(name);
        assert(names.deep_view() =~= before.push(low));
        i += 1;
    }
    assert(names.deep_view() =~= lowered(all));
    let at = places(&names, needle.as_str());
    let ghost wanted = at@.map_values(|k: usize| k as int);
    let mut found: Vec<Application> = Vec::new();
    let mut k: usize = 0;
    assert(found.deep_view() =~= chosen(all, wanted).take(0));
    while k < at.len()
        invariant
            all == applications.deep_view(),
            wanted == at@.map_values(|k: usize| k as int),
            names@.len() == applications@.len(),
            forall|j: int| 0 <= j < at@.len() ==> (#[trigger] at@[j]) < names@.len(),
            k <= at@.len(),
            found.deep_view() == chosen(all, wanted).take(k as int),
        decreases at@.len() - k,
    {
        let one = applications[at[k]].clone();
        let ghost before = found.deep_view();
        found.push(one);
        assert(found.deep_view() =~= before.push(one.deep_view()));
        assert(chosen(all, wanted).take(k + 1) =~= chosen(all, wanted).take(k as int).push(
            chosen(all, wanted)[k as int],
        ));
        k += 1;
    }
    assert(chosen(all, wanted).take(k as int) =~= chosen(all, wanted));
    found
}

/// What an application is called, by its id.
pub open spec fn name_of(applications: Seq<ApplicationView>, id: u32) -> Seq<char>
    decreases applications.len(),
{
    if applications.len() == 0 {
        "Application"@
    } else if applications[0].id == id {
        applications[0].name
    } else {
        name_of(applications.drop_first(), id)
    }
}

/// What starting an application does besides.
pub open spec fn started(applications: Seq<ApplicationView>, id: u32) -> Seq<EffectView> {
    seq![
        EffectView::Toast("Starting "@ + name_of(applications, id)),
        EffectView::Send(ClientMessageView::Launch { id }),
    ]
}

fn starting(applications: &Vec<Application>, id: u32) -> (text: String)
    ensures
        text@ == "Starting "@ + name_of(applications.deep_view(), id),
{
    let ghost all = applications.deep_view();
    let mut text = "Starting ".to_string();
    let mut i: usize = 0;
    assert(all.skip(0) =~= all);
    while i < applications.len()
        invariant
            all == applications.deep_view(),
            i <= applications@.len(),
            text@ == "Starting "@,
            name_of(all, id) == name_of(all.skip(i as int), id),
        decreases applications@.len() - i,
    {
        assert(all.skip(i as int)[0] == applications@[i as int].deep_view());
        assert(all.skip(i as int).drop_first() =~= all.skip(i + 1));
        if applications[i].id == id {
            text.append(applications[i].name.as_str());
            return text;
        }
        i += 1;
    }
    text.append("Application");
    text
}

/// A search that has just been cleared.
pub open spec fn cleared() -> SearchView {
    SearchView { filter: Seq::empty(), selected: 0 }
}

/// What a key does in the search box: the search, the shell, and what else.
pub open spec fn navigated(
    search: SearchView,
    shell: ShellView,
    applications: Seq<ApplicationView>,
    key: Seq<char>,
) -> (SearchView, ShellView, Seq<EffectView>) {
    let list = matches(applications, search.filter);
    let prevent = seq![EffectView::PreventDefault];
    if key == "ArrowDown"@ && list.len() > 0 {
        let next = if search.selected + 1 < list.len() {
            search.selected + 1
        } else {
            list.len() - 1
        };
        (SearchView { selected: next, ..search }, shell, prevent)
    } else if key == "ArrowUp"@ {
        let next = if search.selected > 0 {
            search.selected - 1
        } else {
            0
        };
        (SearchView { selected: next, ..search }, shell, prevent)
    } else if key == "Enter"@ {
        if search.selected < list.len() {
            (
                cleared(),
                ShellView { launcher_open: false, ..shell },
                started(applications, list[search.selected].id) + prevent,
            )
        } else {
            (search, shell, prevent)
        }
    } else if key == "Escape"@ {
        (search, ShellView { launcher_open: false, ..shell }, prevent)
    } else {
        (search, shell, Seq::empty())
    }
}

impl Search {
    /// Nothing typed yet.
    pub fn new() -> (search: Self)
        ensures
            search@ == cleared(),
    {
        Search { filter: String::new(), selected: 0 }
    }

    /// Something was typed: the first match is selected again.
    pub fn typed(&mut self, text: String)
        ensures
            final(self)@ == (SearchView { filter: text@, selected: 0 }),
    {
        self.filter = text;
        self.selected = 0;
    }

    /// Start an application: the launcher closes and forgets what was typed.
    pub fn launch(
        &mut self,
        shell: &mut Shell,
        applications: &Vec<Application>,
        id: u32,
    ) -> (effects: Vec<Effect>)
        ensures
            final(self)@ == cleared(),
            final(shell)@ == (ShellView { launcher_open: false, ..old(shell)@ }),
            effects.deep_view() == started(applications.deep_view(), id),
    {
        shell.launcher_open = false;
        self.filter = String::new();
        self.selected = 0;
        let mut effects = nothing();
        perform(&mut effects, Effect::Toast(starting(applications, id)));
        perform(&mut effects, Effect::Send(ClientMessage::Launch { id }));
        assert(effects.deep_view() =~= started(applications.deep_view(), id));
        assert(shell@ =~= (ShellView { launcher_open: false, ..old(shell)@ }));
        assert(self@ =~= cleared());
        effects
    }

    /// Take a key typed into the search box: the arrows move the selection, enter
    /// starts what is selected, escape closes the launcher, and anything else is
    /// the box's own.
    pub fn navigate(
        &mut self,
        shell: &mut Shell,
        applications: &Vec<Application>,
        key: &str,
    ) -> (effects: Vec<Effect>)
        ensures
            (final(self)@, final(shell)@, effects.deep_view()) == navigated(
                old(self)@,
                old(shell)@,
                applications.deep_view(),
                key@,
            ),
    {
        let list = matching(applications, self.filter.as_str());
        let ghost listed = list.deep_view();
        let mut effects = nothing();
        if same(key, "ArrowDown") && list.len() > 0 {
            let last = list.len() - 1;
            self.selected = if self.selected < last {
                self.selected + 1
            } else {
                last
            };
        } else if same(key, "ArrowUp") {
            self.selected = if self.selected > 0 {
                self.selected - 1
            } else {
                0
            };
        } else if same(key, "Enter") {
            if self.selected < list.len() {
                assert(listed[self.selected as int] == list@[self.selected as int].deep_view());
                effects = self.launch(shell, applications, list[self.selected].id);
            }
        } else if same(key, "Escape") {
            shell.launcher_open = false;
        } else {
            return effects;
        }
        let ghost done = effects.deep_view();
        perform(&mut effects, Effect::PreventDefault);
        proof {
            let (search, after, all) = navigated(
                old(self)@,
                old(shell)@,
                applications.deep_view(),
                key@,
            );
            assert(effects.deep_view() =~= all);
            assert(shell@ =~= after);
            assert(self@ =~= search);
        }
        effects
    }
}

/// The selection never leaves the list: whatever key is pressed while it points
/// at a match, it points at one afterwards, or the launcher has been cleared.
pub proof fn the_selection_stays_in_the_list(
    search: SearchView,
    shell: ShellView,
    applications: Seq<ApplicationView>,
    key: Seq<char>,
)
    requires
        0 <= search.selected < matches(applications, search.filter).len(),
    ensures
        ({
            let after = navigated(search, shell, applications, key).0;
            after == cleared() || (after.filter == search.filter && 0 <= after.selected < matches(
                applications,
                search.filter,
            ).len())
        }),
{
}

proof fn shown_places(names: Seq<Seq<char>>, needle: Seq<char>, n: int)
    requires
        0 <= n <= names.len(),
    ensures
        shown(names, needle, n).len() <= SHOWN,
        forall|k: int|
            0 <= k < shown(names, needle, n).len() ==> 0 <= (#[trigger] shown(names, needle, n)[k])
                < n && (needle.len() == 0 || holds(names[shown(names, needle, n)[k]], needle)),
        forall|j: int, k: int|
            0 <= j < k < shown(names, needle, n).len() ==> (#[trigger] shown(names, needle, n)[j])
                < (#[trigger] shown(names, needle, n)[k]),
    decreases n,
{
    if n > 0 {
        shown_places(names, needle, n - 1);
    }
}

/// The launcher starts only what the compositor listed: pressing enter names the
/// id of an application whose name holds what was typed, and of no other.
pub proof fn enter_starts_a_listed_application(
    search: SearchView,
    shell: ShellView,
    applications: Seq<ApplicationView>,
)
    requires
        0 <= search.selected < matches(applications, search.filter).len(),
    ensures
        exists|i: int|
            0 <= i < applications.len() && (lowercase(search.filter).len() == 0 || holds(
                lowercase(applications[i].name),
                lowercase(search.filter),
            )) && #[trigger] started(applications, applications[i].id) == started(
                applications,
                matches(applications, search.filter)[search.selected].id,
            ) && matches(applications, search.filter)[search.selected] == applications[i],
{
    let names = lowered(applications);
    let needle = lowercase(search.filter);
    shown_places(names, needle, applications.len() as int);
    let at = shown(names, needle, applications.len() as int)[search.selected];
    assert(matches(applications, search.filter)[search.selected] == applications[at]);
    assert(names[at] == lowercase(applications[at].name));
    assert(started(applications, applications[at].id) == started(
        applications,
        matches(applications, search.filter)[search.selected].id,
    ));
}

/// Is the `i`th application one whose name holds what was typed, whatever the
/// case?
pub open spec fn is_match(applications: Seq<ApplicationView>, filter: Seq<char>, i: int) -> bool {
    0 <= i < applications.len() && (lowercase(filter).len() == 0 || holds(
        lowercase(applications[i].name),
        lowercase(filter),
    ))
}

proof fn shown_is_complete(names: Seq<Seq<char>>, needle: Seq<char>, n: int, i: int)
    requires
        0 <= i < n <= names.len(),
        needle.len() == 0 || holds(names[i], needle),
        shown(names, needle, n).len() < SHOWN,
    ensures
        shown(names, needle, n).contains(i),
    decreases n,
{
    let before = shown(names, needle, n - 1);
    let now = shown(names, needle, n);
    if i == n - 1 {
        assert(now == before.push(i));
        assert(now[before.len() as int] == i);
    } else {
        shown_is_complete(names, needle, n - 1, i);
        let k = choose|k: int| 0 <= k < before.len() && before[k] == i;
        assert(now[k] == i);
    }
}

/// The launcher lists the applications whose name holds what was typed: nothing
/// else, in the order they came, no more than fit, and where they fit every one
/// of them.
pub proof fn the_launcher_lists_what_matches(
    applications: Seq<ApplicationView>,
    filter: Seq<char>,
    i: int,
)
    ensures
        ({
            let list = matches(applications, filter);
            &&& list.len() <= SHOWN
            &&& forall|k: int|
                0 <= k < list.len() ==> exists|j: int|
                    is_match(applications, filter, j) && #[trigger] list[k]
                        == #[trigger] applications[j]
            &&& list.len() < SHOWN && is_match(applications, filter, i) ==> list.contains(
                applications[i],
            )
        }),
{
    let names = lowered(applications);
    let needle = lowercase(filter);
    let n = applications.len() as int;
    let at = shown(names, needle, n);
    let list = matches(applications, filter);
    shown_places(names, needle, n);
    assert forall|k: int| 0 <= k < list.len() implies exists|j: int|
        is_match(applications, filter, j) && #[trigger] list[k] == #[trigger] applications[j] by {
        assert(names[at[k]] == lowercase(applications[at[k]].name));
        assert(list[k] == applications[at[k]]);
        assert(is_match(applications, filter, at[k]));
    }
    if list.len() < SHOWN && is_match(applications, filter, i) {
        assert(names[i] == lowercase(applications[i].name));
        shown_is_complete(names, needle, n, i);
        let k = choose|k: int| 0 <= k < at.len() && at[k] == i;
        assert(list[k] == applications[i]);
    }
}

/// In the search box the arrows move the selection one at a time and stop at the
/// ends, enter starts what is selected and closes the launcher, escape closes it
/// and starts nothing; anything else is the box's own.
pub proof fn a_key_in_the_search_box_does_one_thing(
    search: SearchView,
    shell: ShellView,
    applications: Seq<ApplicationView>,
    key: Seq<char>,
)
    requires
        0 <= search.selected < matches(applications, search.filter).len(),
    ensures
        ({
            let list = matches(applications, search.filter);
            let (after, open, effects) = navigated(search, shell, applications, key);
            let launch = EffectView::Send(
                ClientMessageView::Launch { id: list[search.selected].id },
            );
            &&& key == "ArrowDown"@ && search.selected + 1 < list.len() ==> after.selected
                == search.selected + 1
            &&& key == "ArrowDown"@ && search.selected + 1 == list.len() ==> after.selected
                == search.selected
            &&& key == "ArrowUp"@ && search.selected > 0 ==> after.selected == search.selected - 1
            &&& key == "ArrowUp"@ && search.selected == 0 ==> after.selected == 0
            &&& key == "Enter"@ ==> effects.contains(launch) && !open.launcher_open
                && after.filter.len() == 0 && after.selected == 0
            &&& key == "Escape"@ ==> !open.launcher_open && after == search && effects == seq![
                EffectView::PreventDefault,
            ]
            &&& key != "Enter"@ && key != "Escape"@ ==> open == shell && after.filter
                == search.filter && effects.len() <= 1
            &&& open.focused == shell.focused && open.workspace == shell.workspace
        }),
{
    reveal_strlit("ArrowDown");
    reveal_strlit("ArrowUp");
    reveal_strlit("Enter");
    reveal_strlit("Escape");
    assert("ArrowDown"@.len() == 9 && "ArrowUp"@.len() == 7 && "Enter"@.len() == 5
        && "Escape"@.len() == 6);
    let list = matches(applications, search.filter);
    let effects = navigated(search, shell, applications, key).2;
    if key == "Enter"@ {
        assert(effects[1] == EffectView::Send(
            ClientMessageView::Launch { id: list[search.selected].id },
        ));
    }
}

/// Starting an application asks for that one and says so by its name; the first
/// of an id counts.
pub proof fn an_application_is_started_by_its_id(
    applications: Seq<ApplicationView>,
    i: int,
)
    requires
        0 <= i < applications.len(),
        forall|j: int| 0 <= j < i ==> (#[trigger] applications[j]).id != applications[i].id,
    ensures
        started(applications, applications[i].id) == seq![
            EffectView::Toast("Starting "@ + applications[i].name),
            EffectView::Send(ClientMessageView::Launch { id: applications[i].id }),
        ],
{
    named_by_id(applications, i);
}

proof fn named_by_id(applications: Seq<ApplicationView>, i: int)
    requires
        0 <= i < applications.len(),
        forall|j: int| 0 <= j < i ==> (#[trigger] applications[j]).id != applications[i].id,
    ensures
        name_of(applications, applications[i].id) == applications[i].name,
    decreases applications.len(),
{
    if i > 0 {
        let rest = applications.drop_first();
        assert(applications[0].id != applications[i].id);
        assert(rest[i - 1] == applications[i]);
        assert forall|j: int| 0 <= j < i - 1 implies (#[trigger] rest[j]).id != rest[i - 1].id by {
            assert(applications[j + 1].id != applications[i].id);
        }
        named_by_id(rest, i - 1);
    }
}

} // verus!
