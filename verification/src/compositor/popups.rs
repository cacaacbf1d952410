//! Menus, tooltips and combobox lists, and what they hang from.

use crate::compositor::tracking::contains;
use vstd::prelude::*;

verus! {

/// An open popup: its Wayland object, and that of the surface it hangs from.
#[derive(Debug, Clone, Copy, PartialEq, Eq, Structural)]
pub struct Popup {
    pub object: u32,
    pub parent: Option<u32>,
}

/// A chain has no repeats, and there are only so many 32-bit names.
proof fn chain_is_short(chain: Seq<u32>)
    requires
        chain.no_duplicates(),
    ensures
        chain.len() <= 0x1_0000_0000,
{
    let names = chain.map_values(|name: u32| name as int);
    assert(names.no_duplicates());
    names.unique_seq_to_set();
    let all = vstd::set_lib::set_int_range(0, 0x1_0000_0000);
    vstd::set_lib::lemma_int_range(0, 0x1_0000_0000);
    assert(names.to_set().subset_of(all)) by {
        assert forall|name: int| names.to_set().contains(name) implies all.contains(name) by {
            let i = choose|i: int| 0 <= i < names.len() && names[i] == name;
            assert(names[i] == chain[i] as int);
        }
    }
    vstd::set_lib::lemma_len_subset(names.to_set(), all);
}

/// A surface and everything it hangs from, nearest first.
///
/// The chain is the client's to describe, so it is not to be trusted with a
/// loop: a popup that claims to be its own ancestor would spin here forever,
/// taking the compositor with it.
pub fn ancestry<F: Fn(&u32) -> Option<u32>>(start: Option<u32>, parent_of: F) -> (chain: Vec<u32>)
    requires
        forall|id: u32| call_requires(parent_of, (&id,)),
    ensures
        chain@.no_duplicates(),
        match start {
            None => chain@.len() == 0,
            Some(id) => chain@.len() > 0 && chain@[0] == id,
        },
        forall|i: int|
            #![trigger chain@[i]]
            0 <= i < chain@.len() - 1 ==> call_ensures(
                parent_of,
                (&chain@[i],),
                Some(chain@[i + 1]),
            ),
        chain@.len() > 0 ==> exists|parent: Option<u32>| #[trigger]
            call_ensures(parent_of, (&chain@.last(),), parent) && match parent {
                None => true,
                Some(id) => chain@.contains(id),
            },
{
    let mut chain: Vec<u32> = Vec::new();
    let mut current = start;
    loop
        invariant
            forall|id: u32| call_requires(parent_of, (&id,)),
            chain@.no_duplicates(),
            chain@.len() == 0 ==> current == start,
            chain@.len() > 0 ==> start == Some(chain@[0]),
            chain@.len() > 0 ==> call_ensures(parent_of, (&chain@.last(),), current),
            forall|i: int|
                #![trigger chain@[i]]
                0 <= i < chain@.len() - 1 ==> call_ensures(
                    parent_of,
                    (&chain@[i],),
                    Some(chain@[i + 1]),
                ),
        ensures
            chain@.no_duplicates(),
            chain@.len() == 0 ==> start is None,
            chain@.len() > 0 ==> start == Some(chain@[0]),
            chain@.len() > 0 ==> call_ensures(parent_of, (&chain@.last(),), current),
            forall|i: int|
                #![trigger chain@[i]]
                0 <= i < chain@.len() - 1 ==> call_ensures(
                    parent_of,
                    (&chain@[i],),
                    Some(chain@[i + 1]),
                ),
            match current {
                None => true,
                Some(id) => chain@.contains(id),
            },
        decreases 0x1_0000_0000 - chain@.len(),
    {
        match current {
            None => {
                break;
            },
            Some(id) => {
                if contains(&chain, id) {
                    break;
                }
                let ghost before = chain@;
                current = parent_of(&id);
                chain.push(id);
                proof {
                    assert forall|i: int| #![trigger chain@[i]] 0 <= i < chain@.len() - 1 implies
                        call_ensures(parent_of, (&chain@[i],), Some(chain@[i + 1])) by {
                        assert(chain@[i] == before[i]);
                    }
                    chain_is_short(chain@);
                }
            },
        }
    }
    chain
}

/// What a popup hangs from, by the first popup of that object.
pub open spec fn hangs_from(popups: Seq<Popup>, object: u32) -> Option<u32>
    decreases popups.len(),
{
    if popups.len() == 0 {
        None
    } else if popups[0].object == object {
        popups[0].parent
    } else {
        hangs_from(popups.drop_first(), object)
    }
}

/// What a popup hangs from.
fn parent_of(popups: &Vec<Popup>, object: u32) -> (parent: Option<u32>)
    ensures
        parent == hangs_from(popups@, object),
{
    let mut i: usize = 0;
    assert(popups@.skip(0) =~= popups@);
    while i < popups.len()
        invariant
            i <= popups@.len(),
            hangs_from(popups@, object) == hangs_from(popups@.skip(i as int), object),
        decreases popups@.len() - i,
    {
        assert(popups@.skip(i as int).drop_first() =~= popups@.skip(i + 1));
        if popups[i].object == object {
            return popups[i].parent;
        }
        i = i + 1;
    }
    None
}

/// `chain` is a surface and everything it hangs from, nearest first, up to the
/// window at its root or to where a loop closes.
pub open spec fn is_ancestry(popups: Seq<Popup>, start: Option<u32>, chain: Seq<u32>) -> bool {
    &&& chain.no_duplicates()
    &&& match start {
        None => chain.len() == 0,
        Some(id) => chain.len() > 0 && chain[0] == id,
    }
    &&& forall|i: int|
        0 <= i < chain.len() - 1 ==> hangs_from(popups, #[trigger] chain[i]) == Some(chain[i + 1])
    &&& chain.len() > 0 ==> match hangs_from(popups, chain.last()) {
        None => true,
        Some(id) => chain.contains(id),
    }
}

/// A surface and everything it hangs from, nearest first.
pub open spec fn ancestry_of(popups: Seq<Popup>, start: Option<u32>) -> Seq<u32> {
    choose|chain: Seq<u32>| is_ancestry(popups, start, chain)
}

/// A popup or window and everything it hangs from, nearest first.
fn ancestors(popups: &Vec<Popup>, start: Option<u32>) -> (chain: Vec<u32>)
    ensures
        is_ancestry(popups@, start, chain@),
        chain@ == ancestry_of(popups@, start),
{
    let step = |id: &u32| -> (parent: Option<u32>)
        ensures
            parent == hangs_from(popups@, *id),
        { parent_of(popups, *id) };
    let chain = ancestry(start, step);
    assert forall|i: int| 0 <= i < chain@.len() - 1 implies hangs_from(
        popups@,
        #[trigger] chain@[i],
    ) == Some(chain@[i + 1]) by {}
    assert(is_ancestry(popups@, start, chain@));
    proof {
        ancestry_is_determined(popups@, start, chain@, ancestry_of(popups@, start));
    }
    chain
}

/// There is one ancestry and no other.
pub proof fn ancestry_is_determined(
    popups: Seq<Popup>,
    start: Option<u32>,
    one: Seq<u32>,
    other: Seq<u32>,
)
    requires
        is_ancestry(popups, start, one),
        is_ancestry(popups, start, other),
    ensures
        one == other,
{
    agrees_up_to(popups, start, one, other, one.len() as int);
    agrees_up_to(popups, start, other, one, other.len() as int);
    assert(one.take(one.len() as int) =~= one);
    assert(other.take(one.len() as int) =~= other);
}

proof fn agrees_up_to(
    popups: Seq<Popup>,
    start: Option<u32>,
    one: Seq<u32>,
    other: Seq<u32>,
    n: int,
)
    requires
        is_ancestry(popups, start, one),
        is_ancestry(popups, start, other),
        0 <= n <= one.len(),
    ensures
        n <= other.len(),
        one.take(n) == other.take(n),
    decreases n,
{
    if n > 0 {
        agrees_up_to(popups, start, one, other, n - 1);
        if n == 1 {
            assert(one.take(n) =~= other.take(n));
        } else {
            assert(one[n - 2] == one.take(n - 1)[n - 2]);
            assert(other[n - 2] == other.take(n - 1)[n - 2]);
            assert(hangs_from(popups, one[n - 2]) == Some(one[n - 1]));
            if other.len() == n - 1 {
                assert(other.last() == other[n - 2]);
                assert(other.contains(one[n - 1]));
                let j = choose|j: int| 0 <= j < other.len() && other[j] == one[n - 1];
                assert(one[j] == one.take(n - 1)[j]);
                assert(other[j] == other.take(n - 1)[j]);
                assert(one[j] == one[n - 1]);
            } else {
                assert(hangs_from(popups, other[n - 2]) == Some(other[n - 1]));
            }
            assert forall|i: int| 0 <= i < n implies one.take(n)[i] == other.take(n)[i] by {
                if i < n - 1 {
                    assert(one.take(n - 1)[i] == other.take(n - 1)[i]);
                }
            }
            assert(one.take(n) =~= other.take(n));
        }
    }
}

/// The popups whose objects are in `keep`, in the same order.
pub open spec fn kept_popups(popups: Seq<Popup>, keep: Seq<u32>) -> Seq<Popup> {
    popups.filter(|popup: Popup| keep.contains(popup.object))
}

/// The objects of the popups that are not in `keep`, in the same order.
pub open spec fn dismissed(popups: Seq<Popup>, keep: Seq<u32>) -> Seq<u32> {
    popups.filter(|popup: Popup| !keep.contains(popup.object)).map_values(
        |popup: Popup| popup.object,
    )
}

/// Close every popup that the newly focused surface does not belong to.
///
/// This is what a pointer grab would do in a compositor that took one: a menu
/// stays up until something outside it is clicked, and then it goes. The chain
/// matters: clicking a submenu must not close the menu it opened from, so what
/// survives is the focused surface and its ancestors. Returns the objects of the
/// popups to tell that they are done.
pub fn dismiss_popups(popups: &mut Vec<Popup>, focused: Option<u32>) -> (done: Vec<u32>)
    ensures
        is_ancestry(old(popups)@, focused, ancestry_of(old(popups)@, focused)),
        final(popups)@ == kept_popups(old(popups)@, ancestry_of(old(popups)@, focused)),
        done@ == dismissed(old(popups)@, ancestry_of(old(popups)@, focused)),
{
    let ghost all = popups@;
    let keep = ancestors(popups, focused);
    let mut kept: Vec<Popup> = Vec::new();
    let mut done: Vec<u32> = Vec::new();
    let ghost stays = |popup: Popup| keep@.contains(popup.object);
    let ghost goes = |popup: Popup| !keep@.contains(popup.object);
    let ghost object = |popup: Popup| popup.object;
    let mut i: usize = 0;
    proof {
        reveal(Seq::filter);
        assert(all.take(0).filter(stays) =~= seq![]);
        assert(all.take(0).filter(goes).map_values(object) =~= seq![]);
    }
    while i < popups.len()
        invariant
            popups@ == all,
            i <= all.len(),
            stays == (|popup: Popup| keep@.contains(popup.object)),
            goes == (|popup: Popup| !keep@.contains(popup.object)),
            object == (|popup: Popup| popup.object),
            kept@ == all.take(i as int).filter(stays),
            done@ == all.take(i as int).filter(goes).map_values(object),
        decreases all.len() - i,
    {
        let popup = popups[i];
        proof {
            reveal(Seq::filter);
            let next = all.take(i + 1);
            assert(next.drop_last() =~= all.take(i as int));
            assert(next.last() == popup);
            assert(next.filter(goes).map_values(object) =~= (if goes(popup) {
                all.take(i as int).filter(goes).map_values(object).push(popup.object)
            } else {
                all.take(i as int).filter(goes).map_values(object)
            }));
        }
        if contains(&keep, popup.object) {
            kept.push(popup);
        } else {
            done.push(popup.object);
        }
        i = i + 1;
    }
    proof {
        assert(all.take(i as int) =~= all);
    }
    *popups = kept;
    done
}

/// The focused popup and every popup it hangs from stay up.
pub proof fn a_clicked_menu_keeps_its_ancestors(popups: Seq<Popup>, keep: Seq<u32>, popup: Popup)
    requires
        popups.contains(popup),
    ensures
        kept_popups(popups, keep).contains(popup) <==> keep.contains(popup.object),
{
    let stays = |popup: Popup| keep.contains(popup.object);
    if keep.contains(popup.object) {
        let i = choose|i: int| 0 <= i < popups.len() && popups[i] == popup;
        popups.lemma_filter_contains(stays, i);
    } else if kept_popups(popups, keep).contains(popup) {
        let j = choose|j: int|
            0 <= j < kept_popups(popups, keep).len() && kept_popups(popups, keep)[j] == popup;
        popups.lemma_filter_pred(stays, j);
    }
}

/// A chain that follows the popups upwards can be followed to its end.
proof fn a_chain_ends(popups: Seq<Popup>, start: u32, chain: Seq<u32>)
    requires
        chain.no_duplicates(),
        chain.len() > 0,
        chain[0] == start,
        forall|i: int|
            0 <= i < chain.len() - 1 ==> hangs_from(popups, #[trigger] chain[i]) == Some(
                chain[i + 1],
            ),
    ensures
        exists|whole: Seq<u32>| is_ancestry(popups, Some(start), whole),
    decreases 0x1_0000_0001 - chain.len(),
{
    chain_is_short(chain);
    match hangs_from(popups, chain.last()) {
        Some(parent) if !chain.contains(parent) => {
            let longer = chain.push(parent);
            assert(longer.no_duplicates());
            chain_is_short(longer);
            assert forall|i: int| 0 <= i < longer.len() - 1 implies hangs_from(
                popups,
                #[trigger] longer[i],
            ) == Some(longer[i + 1]) by {
                assert(longer[i] == chain[i]);
                if i == chain.len() - 1 {
                    assert(chain[i] == chain.last());
                }
            }
            a_chain_ends(popups, start, longer);
        },
        _ => {
            assert(is_ancestry(popups, Some(start), chain));
        },
    }
}

/// Every surface has an ancestry, loops or not.
pub proof fn an_ancestry_exists(popups: Seq<Popup>, start: Option<u32>)
    ensures
        is_ancestry(popups, start, ancestry_of(popups, start)),
{
    match start {
        None => {
            assert(is_ancestry(popups, start, Seq::empty()));
        },
        Some(id) => {
            a_chain_ends(popups, id, seq![id]);
        },
    }
}

/// No two open popups are the same object.
pub open spec fn apart(popups: Seq<Popup>) -> bool {
    forall|i: int, j: int|
        0 <= i < j < popups.len() ==> (#[trigger] popups[i]).object != (#[trigger] popups[j]).object
}

proof fn hangs_from_its_parent(popups: Seq<Popup>, i: int)
    requires
        apart(popups),
        0 <= i < popups.len(),
    ensures
        hangs_from(popups, popups[i].object) == popups[i].parent,
    decreases popups.len(),
{
    if i > 0 {
        let rest = popups.drop_first();
        assert(popups[0].object != popups[i].object);
        assert forall|a: int, b: int| 0 <= a < b < rest.len() implies (#[trigger] rest[a]).object
            != (#[trigger] rest[b]).object by {
            assert(popups[a + 1].object != popups[b + 1].object);
        }
        assert(rest[i - 1] == popups[i]);
        hangs_from_its_parent(rest, i - 1);
    }
}

proof fn hangs_from_nothing(popups: Seq<Popup>, object: u32)
    requires
        forall|i: int| 0 <= i < popups.len() ==> (#[trigger] popups[i]).object != object,
    ensures
        hangs_from(popups, object) is None,
    decreases popups.len(),
{
    if popups.len() > 0 {
        assert(popups[0].object != object);
        let rest = popups.drop_first();
        assert forall|i: int| 0 <= i < rest.len() implies (#[trigger] rest[i]).object != object by {
            assert(popups[i + 1].object != object);
        }
        hangs_from_nothing(rest, object);
    }
}

/// Clicking anything but a popup closes every popup, and each of them is told.
pub proof fn focus_elsewhere_closes_every_popup(popups: Seq<Popup>, focused: Option<u32>)
    requires
        forall|i: int| 0 <= i < popups.len() ==> Some((#[trigger] popups[i]).object) != focused,
    ensures
        kept_popups(popups, ancestry_of(popups, focused)).len() == 0,
        dismissed(popups, ancestry_of(popups, focused)) == popups.map_values(
            |popup: Popup| popup.object,
        ),
{
    let keep = ancestry_of(popups, focused);
    an_ancestry_exists(popups, focused);
    if let Some(object) = focused {
        hangs_from_nothing(popups, object);
        if keep.len() > 1 {
            assert(hangs_from(popups, keep[0]) == Some(keep[1]));
        }
    }
    assert forall|i: int| 0 <= i < popups.len() implies !keep.contains(
        (#[trigger] popups[i]).object,
    ) by {
        if keep.contains(popups[i].object) {
            let k = choose|k: int| 0 <= k < keep.len() && keep[k] == popups[i].object;
            assert(k == 0);
        }
    }
    none_are_kept(popups, keep);
    assert(dismissed(popups, keep) =~= popups.map_values(|popup: Popup| popup.object));
}

proof fn none_are_kept(popups: Seq<Popup>, keep: Seq<u32>)
    requires
        forall|i: int| 0 <= i < popups.len() ==> !keep.contains((#[trigger] popups[i]).object),
    ensures
        kept_popups(popups, keep).len() == 0,
        popups.filter(|popup: Popup| !keep.contains(popup.object)) == popups,
    decreases popups.len(),
{
    reveal(Seq::filter);
    if popups.len() > 0 {
        let front = popups.drop_last();
        assert forall|i: int| 0 <= i < front.len() implies !keep.contains(
            (#[trigger] front[i]).object,
        ) by {
            assert(front[i] == popups[i]);
        }
        assert(popups.last() == popups[popups.len() - 1]);
        none_are_kept(front, keep);
        assert(popups =~= front.push(popups.last()));
    } else {
        assert(popups.filter(|popup: Popup| !keep.contains(popup.object)) =~= popups);
    }
}

/// Clicking a popup keeps it and whatever it hangs from, and nothing else: each
/// popup that stays is the one clicked or the parent of another that stays, and
/// each of the others is told that it is done.
pub proof fn a_focused_popup_keeps_what_it_hangs_from(
    popups: Seq<Popup>,
    i: int,
    j: int,
    k: int,
)
    requires
        apart(popups),
        0 <= i < popups.len(),
        0 <= j < popups.len(),
        0 <= k < popups.len(),
    ensures
        ({
            let keep = ancestry_of(popups, Some(popups[i].object));
            let stay = kept_popups(popups, keep);
            &&& stay.contains(popups[i])
            &&& stay.contains(popups[j]) && popups[j].parent == Some(popups[k].object)
                ==> stay.contains(popups[k])
            &&& stay.contains(popups[j]) && j != i ==> exists|m: int|
                0 <= m < popups.len() && stay.contains(#[trigger] popups[m]) && popups[m].parent
                    == Some(popups[j].object)
            &&& stay.contains(popups[j]) <==> !dismissed(popups, keep).contains(popups[j].object)
        }),
{
    let focused = Some(popups[i].object);
    let keep = ancestry_of(popups, focused);
    let stay = kept_popups(popups, keep);
    an_ancestry_exists(popups, focused);
    assert forall|m: int| 0 <= m < popups.len() implies (stay.contains(#[trigger] popups[m])
        <==> keep.contains(popups[m].object)) by {
        assert(popups.contains(popups[m]));
        a_clicked_menu_keeps_its_ancestors(popups, keep, popups[m]);
    }
    assert(keep[0] == popups[i].object);
    assert(keep.contains(popups[i].object));
    if keep.contains(popups[j].object) {
        let n = choose|n: int| 0 <= n < keep.len() && keep[n] == popups[j].object;
        hangs_from_its_parent(popups, j);
        if popups[j].parent == Some(popups[k].object) {
            if n < keep.len() - 1 {
                assert(hangs_from(popups, keep[n]) == Some(keep[n + 1]));
                assert(keep[n + 1] == popups[k].object);
            } else {
                assert(keep.last() == keep[n]);
            }
            assert(keep.contains(popups[k].object));
        }
        if j != i {
            assert(n > 0) by {
                if n == 0 {
                    assert(popups[i].object == popups[j].object);
                    if i < j {
                        assert(popups[i].object != popups[j].object);
                    } else {
                        assert(popups[j].object != popups[i].object);
                    }
                }
            }
            assert(hangs_from(popups, keep[n - 1]) == Some(keep[n]));
            if forall|m: int| 0 <= m < popups.len() ==> (#[trigger] popups[m]).object != keep[n
                - 1] {
                hangs_from_nothing(popups, keep[n - 1]);
            }
            let m = choose|m: int|
                0 <= m < popups.len() && (#[trigger] popups[m]).object == keep[n - 1];
            hangs_from_its_parent(popups, m);
            assert(keep.contains(popups[m].object));
        }
    }
    told_or_kept(popups, keep, j);
}

proof fn told_or_kept(popups: Seq<Popup>, keep: Seq<u32>, j: int)
    requires
        0 <= j < popups.len(),
    ensures
        dismissed(popups, keep).contains(popups[j].object) <==> !keep.contains(popups[j].object),
{
    let goes = |popup: Popup| !keep.contains(popup.object);
    let out = popups.filter(goes);
    if goes(popups[j]) {
        popups.lemma_filter_contains(goes, j);
        let n = choose|n: int| 0 <= n < out.len() && out[n] == popups[j];
        assert(dismissed(popups, keep)[n] == popups[j].object);
    } else if dismissed(popups, keep).contains(popups[j].object) {
        let n = choose|n: int|
            0 <= n < dismissed(popups, keep).len() && dismissed(popups, keep)[n]
                == popups[j].object;
        popups.lemma_filter_pred(goes, n);
        assert(out[n].object == popups[j].object);
    }
}

} // verus!
