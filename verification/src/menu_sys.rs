//! Menu handling: opening the main and inventory menus, and turning a
//! menu choice into the input token the rest of the engine consumes.

use crate::resources::{InputAction, Menu, MenuKind, State};
use crate::world::{world_wf, GameWorld};
use vstd::prelude::*;
use vstd::string::StringExecFns;

verus! {

pub const INVENTORY_WIDTH: i32 = 50;

/// What a main-menu choice means.
pub open spec fn main_menu_choice(n: usize) -> InputAction {
    if n == 0 {
        InputAction::NewGame
    } else if n == 1 {
        InputAction::LoadGame
    } else if n == 2 {
        InputAction::Exit
    } else {
        InputAction::Noop
    }
}

/// Map a main-menu row to the input token it stands for.
pub fn handle_main_menu_choice(n: usize) -> (r: InputAction)
    ensures
        r == main_menu_choice(n),
{
    if n == 0 {
        InputAction::NewGame
    } else if n == 1 {
        InputAction::LoadGame
    } else if n == 2 {
        InputAction::Exit
    } else {
        InputAction::Noop
    }
}

/// The menu stage: opens the main menu or an inventory view, dismisses a
/// menu, and resolves a pending choice into the next input token.
pub fn menu_system(w: &mut GameWorld)
    requires
        world_wf(old(w)),
    ensures
        world_wf(final(w)),
        final(w).actors == old(w).actors,
        final(w).map == old(w).map,
        final(w).messages == old(w).messages,
        final(w).targeting == old(w).targeting,
        old(w).input == InputAction::MainMenu ==> ({
            &&& final(w).menu matches Some(m) && m.kind == MenuKind::Main && m.items@.len()
                == 3
            &&& final(w).state == State::MainMenu
            &&& final(w).input == old(w).input
        }),
        old(w).input == InputAction::OpenInventoryMenu ==> final(w).menu is Some && final(w).menu.unwrap().kind == MenuKind::Inventory && menu_rows_list_inventory(
            old(w).actors@,
            final(w).menu.unwrap(),
        ) && final(w).input == old(w).input && final(w).state == old(w).state,
        old(w).input == InputAction::OpenDropMenu ==> final(w).menu is Some && final(w).menu.unwrap().kind == MenuKind::Drop && menu_rows_list_inventory(
            old(w).actors@,
            final(w).menu.unwrap(),
        ) && final(w).input == old(w).input && final(w).state == old(w).state,
        (old(w).input is MenuChoice && old(w).menu is Some) ==> ({
            let c = old(w).input->MenuChoice_0;
            let kind = old(w).menu.unwrap().kind;
            &&& final(w).menu is None
            &&& (kind == MenuKind::Main ==> final(w).input == main_menu_choice(c))
            &&& (kind == MenuKind::Drop ==> final(w).input == InputAction::Drop(c))
            &&& (kind == MenuKind::Inventory ==> final(w).input
                == InputAction::UseFromInventory(c))
        }),
        old(w).input == InputAction::DismissMenu ==> final(w).menu is None,
        !(old(w).input == InputAction::MainMenu || old(w).input
            == InputAction::OpenInventoryMenu || old(w).input == InputAction::OpenDropMenu
            || old(w).input is MenuChoice || old(w).input == InputAction::DismissMenu)
            ==> *final(w) == *old(w),
{
    match w.input {
        InputAction::MainMenu => {
            let mut items: Vec<String> = Vec::new();
            items.push(String::from_str("Play a new game"));
            items.push(String::from_str("Continue last game"));
            items.push(String::from_str("Quit"));
            w.menu = Some(
                Menu {
                    items,
                    header: String::from_str(""),
                    width: 24,
                    kind: MenuKind::Main,
                },
            );
            w.state = State::MainMenu;
        },
        InputAction::OpenInventoryMenu => {
            let items = inventory_item_names(w);
            w.menu = Some(
                Menu {
                    header: String::from_str(
                        "Press the key next to an item to use it, escape to cancel.\n",
                    ),
                    width: INVENTORY_WIDTH,
                    items,
                    kind: MenuKind::Inventory,
                },
            );
        },
        InputAction::OpenDropMenu => {
            let items = inventory_item_names(w);
            w.menu = Some(
                Menu {
                    header: String::from_str(
                        "Press the key next to an item to drop it, escape to cancel.\n",
                    ),
                    width: INVENTORY_WIDTH,
                    items,
                    kind: MenuKind::Drop,
                },
            );
        },
        InputAction::MenuChoice(choice) => {
            let kind = match &w.menu {
                Some(m) => Some(m.kind),
                None => None,
            };
            match kind {
                Some(MenuKind::Main) => {
                    w.input = handle_main_menu_choice(choice);
                    w.menu = None;
                },
                Some(MenuKind::Drop) => {
                    w.input = InputAction::Drop(choice);
                    w.menu = None;
                },
                Some(MenuKind::Inventory) => {
                    w.input = InputAction::UseFromInventory(choice);
                    w.menu = None;
                },
                None => {},
            }
        },
        InputAction::DismissMenu => {
            w.menu = None;
        },
        _ => {},
    }
}

/// The rows of an inventory view: one row per carried handle, in
/// inventory order, naming the item (or a placeholder for a nameless or
/// dangling handle); an empty or absent inventory shows a single
/// placeholder line.
pub open spec fn menu_rows_list_inventory(s: Seq<crate::world::Actor>, m: Menu) -> bool {
    if exists|p: int| 0 <= p < s.len() && (#[trigger] s[p].player) is Some {
        let p = choose|p: int| 0 <= p < s.len() && (#[trigger] s[p].player) is Some;
        if s[p].inventory is Some && s[p].inventory.unwrap().0@.len() > 0 {
            let inv = s[p].inventory.unwrap().0@;
            &&& m.items@.len() == inv.len()
            &&& forall|k: int|
                0 <= k < inv.len() ==> (#[trigger] m.items@[k])@ == (if inv[k] < s.len()
                    && s[inv[k] as int].name is Some {
                    s[inv[k] as int].name.unwrap().0@
                } else {
                    "something"@
                })
        } else {
            m.items@.len() == 1 && m.items@[0]@ == "Inventory is empty."@
        }
    } else {
        m.items@.len() == 1 && m.items@[0]@ == "Inventory is empty."@
    }
}

/// Map a letter key to the menu row it names: `a` is the first row, and
/// only letters within the menu's row count (inclusive, as a lenient
/// upper bound) count as a choice.
pub fn menu_letter_choice(c: char, item_count: usize) -> (r: Option<usize>)
    ensures
        r matches Some(n) ==> n <= item_count,
        ('a' <= c <= 'z' && c as int - 'a' as int <= item_count) ==> r == Some(
            (c as int - 'a' as int) as usize,
        ),
        ('A' <= c <= 'Z' && c as int - 'A' as int <= item_count) ==> r == Some(
            (c as int - 'A' as int) as usize,
        ),
        ('a' <= c <= 'z' && c as int - 'a' as int > item_count) ==> r is None,
        ('A' <= c <= 'Z' && c as int - 'A' as int > item_count) ==> r is None,
        !('a' <= c <= 'z' || 'A' <= c <= 'Z') ==> r is None,
{
    let code = c as u32;
    let n: usize = if 'a' <= c && c <= 'z' {
        (code - 97) as usize
    } else if 'A' <= c && c <= 'Z' {
        (code - 65) as usize
    } else {
        return None;
    };
    if n <= item_count {
        Some(n)
    } else {
        None
    }
}

/// The display names of the player's inventory, or a single placeholder
/// line when it is empty.
fn inventory_item_names(w: &GameWorld) -> (r: Vec<String>)
    requires
        world_wf(w),
    ensures
        r@.len() >= 1,
        forall|m: Menu| m.items == r ==> menu_rows_list_inventory(w.actors@, m),
{
    let mut options: Vec<String> = Vec::new();
    match crate::world::find_player(&w.actors) {
        Some(p) => {
            proof {
                let ghost pc = choose|pc: int|
                    0 <= pc < w.actors@.len() && (#[trigger] w.actors@[pc].player) is Some;
                assert(pc == p as int);
            }
            if let Some(inv) = &w.actors[p].inventory {
                let mut k: usize = 0;
                while k < inv.0.len()
                    invariant
                        world_wf(w),
                        p < w.actors@.len(),
                        w.actors@[p as int].player is Some,
                        w.actors@[p as int].inventory == Some(*inv),
                        k <= inv.0@.len(),
                        options@.len() == k,
                        forall|k2: int|
                            0 <= k2 < k ==> (#[trigger] options@[k2])@ == (if inv.0@[k2]
                                < w.actors@.len() && w.actors@[inv.0@[k2] as int].name
                                is Some {
                                w.actors@[inv.0@[k2] as int].name.unwrap().0@
                            } else {
                                "something"@
                            }),
                    decreases inv.0@.len() - k,
                {
                    let h = inv.0[k];
                    let label: String = if h < w.actors.len() {
                        match &w.actors[h].name {
                            Some(n) => n.0.clone(),
                            None => String::from_str("something"),
                        }
                    } else {
                        String::from_str("something")
                    };
                    options.push(label);
                    k = k + 1;
                }
            }
        },
        None => {},
    }
    if options.len() == 0 {
        options.push(String::from_str("Inventory is empty."));
    }
    options
}

} // verus!
