//! The system tray: the icons applications publish for themselves.
//!
//! These are not windows and have no surface. A click goes back as the item's
//! own action; the right button asks for its menu, which is fetched when it is
//! opened rather than kept. Nothing here knows what an item is: its id is the
//! server's handle for it and travels back untouched.

use crate::browser::scene::{nothing, perform, Effect, EffectView};
use crate::protocol::messages::{
    ClientMessage, ClientMessageView, TrayMenuItem, TrayMenuItemView,
};
use crate::text::{same, upper_of, uppercase};
use vstd::prelude::*;

verus! {

/// What asking for an item's menu does, given which menu is open. One menu at a
/// time, and a second click on the same icon closes it; a tray icon is a toggle,
/// not a one-way door.
pub open spec fn toggled(open: Option<Seq<char>>, id: Seq<char>) -> Seq<EffectView> {
    if open == Some(id) {
        seq![EffectView::CloseTrayMenu]
    } else {
        seq![
            EffectView::CloseTrayMenu,
            EffectView::Send(ClientMessageView::TrayMenuOpen { id }),
        ]
    }
}

/// What pressing a mouse button on an item does.
pub open spec fn pressed(open: Option<Seq<char>>, id: Seq<char>, button: i16) -> Seq<EffectView> {
    if button == 0 || button == 1 {
        seq![
            EffectView::Send(ClientMessageView::TrayActivate { id, secondary: button == 1 }),
        ]
    } else {
        toggled(open, id)
    }
}

/// Take a press on an item. Left: the item's own action. Middle is its other
/// one, and right its menu, which is what a tray has always meant by them.
pub fn press(open: &Option<String>, id: &String, button: i16) -> (effects: Vec<Effect>)
    ensures
        effects.deep_view() == pressed(open.deep_view(), id@, button),
{
    let mut effects = nothing();
    if button == 0 || button == 1 {
        perform(
            &mut effects,
            Effect::Send(
                ClientMessage::TrayActivate { id: id.clone(), secondary: button == 1 },
            ),
        );
    } else {
        let shut = match open {
            Some(current) => same(current.as_str(), id.as_str()),
            None => false,
        };
        perform(&mut effects, Effect::CloseTrayMenu);
        if !shut {
            perform(&mut effects, Effect::Send(ClientMessage::TrayMenuOpen { id: id.clone() }));
        }
    }
    assert(effects.deep_view() =~= pressed(open.deep_view(), id@, button));
    effects
}

/// What picking a row of an item's menu does. The application acts on the click;
/// the menu's job is done, and leaving it up would show state that is already
/// stale.
pub open spec fn picked(id: Seq<char>, row: TrayMenuItemView) -> Seq<EffectView> {
    if row.enabled {
        seq![
            EffectView::Send(ClientMessageView::TrayMenuClick { id, item: row.id }),
            EffectView::CloseTrayMenu,
        ]
    } else {
        Seq::empty()
    }
}

/// Take a click on a row of an item's menu, or of a submenu of it.
pub fn pick(id: &String, row: &TrayMenuItem) -> (effects: Vec<Effect>)
    ensures
        effects.deep_view() == picked(id@, row.deep_view()),
{
    let mut effects = nothing();
    if row.enabled {
        perform(
            &mut effects,
            Effect::Send(ClientMessage::TrayMenuClick { id: id.clone(), item: row.id }),
        );
        perform(&mut effects, Effect::CloseTrayMenu);
    }
    assert(effects.deep_view() =~= picked(id@, row.deep_view()));
    effects
}

/// How a row of a menu is drawn.
#[derive(Debug, Clone, Copy, PartialEq, Eq, Structural)]
pub enum RowKind {
    Separator,
    Submenu,
    Button,
}

/// How a row of a menu is drawn: a rule, a submenu where it has children, else a
/// button.
pub fn row_kind(row: &TrayMenuItem) -> (kind: RowKind)
    ensures
        kind == (if row.separator {
            RowKind::Separator
        } else if row.children@.len() > 0 {
            RowKind::Submenu
        } else {
            RowKind::Button
        }),
{
    if row.separator {
        RowKind::Separator
    } else if row.children.len() > 0 {
        RowKind::Submenu
    } else {
        RowKind::Button
    }
}

/// Whether a row shows a tick.
pub fn ticked(row: &TrayMenuItem) -> (tick: bool)
    ensures
        tick == (row.checked == Some(true)),
{
    match row.checked {
        Some(checked) => checked,
        None => false,
    }
}

/// The letters that stand for an item without a picture.
pub open spec fn initial_of(title: Seq<char>) -> Seq<char> {
    if title.len() == 0 {
        "?"@
    } else {
        uppercase(title[0])
    }
}

/// What stands for an item that published no picture: its initial.
pub fn initial(title: &str) -> (letters: String)
    ensures
        letters@ == initial_of(title@),
{
    if title.unicode_len() == 0 {
        return "?".to_string();
    }
    upper_of(title.get_char(0))
}

/// Clicking the same icon twice opens its menu and closes it again.
pub proof fn a_second_click_closes_the_menu(id: Seq<char>, button: i16)
    requires
        button != 0,
        button != 1,
    ensures
        pressed(None, id, button) == seq![
            EffectView::CloseTrayMenu,
            EffectView::Send(ClientMessageView::TrayMenuOpen { id }),
        ],
        pressed(Some(id), id, button) == seq![EffectView::CloseTrayMenu],
{
}

/// Each button on an item means one thing: the left its own action, the middle
/// its other one, and any other its menu, which only ever opens for the item it
/// was asked of.
pub proof fn a_button_means_one_thing(open: Option<Seq<char>>, id: Seq<char>, button: i16)
    ensures
        pressed(open, id, 0) == seq![
            EffectView::Send(ClientMessageView::TrayActivate { id, secondary: false }),
        ],
        pressed(open, id, 1) == seq![
            EffectView::Send(ClientMessageView::TrayActivate { id, secondary: true }),
        ],
        button != 0 && button != 1 ==> {
            &&& pressed(open, id, button)[0] == EffectView::CloseTrayMenu
            &&& pressed(open, id, button).contains(
                EffectView::Send(ClientMessageView::TrayMenuOpen { id }),
            ) <==> open != Some(id)
        },
{
    if button != 0 && button != 1 {
        let effects = pressed(open, id, button);
        if open != Some(id) {
            assert(effects[1] == EffectView::Send(ClientMessageView::TrayMenuOpen { id }));
        } else {
            assert(effects.len() == 1);
            assert(effects[0] == EffectView::CloseTrayMenu);
        }
    }
}

/// Picking a row that can be picked clicks that row of that item, and the menu
/// closes; a greyed-out row does nothing, and the menu stays.
pub proof fn a_row_is_clicked_by_its_own_id(id: Seq<char>, row: TrayMenuItemView)
    ensures
        row.enabled ==> picked(id, row).len() == 2 && picked(id, row)[0] == EffectView::Send(
            ClientMessageView::TrayMenuClick { id, item: row.id },
        ) && picked(id, row)[1] == EffectView::CloseTrayMenu,
        !row.enabled ==> picked(id, row).len() == 0,
{
}

/// A row is one thing, and a tick is shown only by a row that is ticked.
pub proof fn a_row_is_one_thing(row: &TrayMenuItem, kind: RowKind, tick: bool)
    requires
        call_ensures(row_kind, (row,), kind),
        call_ensures(ticked, (row,), tick),
    ensures
        kind == RowKind::Separator <==> row.separator,
        kind == RowKind::Submenu <==> !row.separator && row.children@.len() > 0,
        tick <==> row.checked == Some(true),
{
}

/// Only the first letter of a title stands for an item, in upper case.
pub proof fn an_initial_is_the_first_letter(first: char, one: Seq<char>, other: Seq<char>)
    ensures
        initial_of(seq![first] + one) == initial_of(seq![first] + other),
        initial_of(seq![first] + one) == uppercase(first),
{
}

} // verus!
