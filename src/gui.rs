use vstd::prelude::*;
use crate::components::Position;
use crate::map::dist_sq;

verus! {

/// Outcome of one tick of an item menu or of the targeting crosshair.
#[derive(PartialEq, Eq, Structural, Copy, Clone, Debug)]
pub enum ItemMenuResult {
    Cancel,
    NoResponse,
    Selected,
}

/// Entries of the main menu.
#[derive(PartialEq, Eq, Structural, Copy, Clone, Debug)]
pub enum MainMenuSelection {
    NewGame,
    LoadGame,
    Quit,
}

/// Outcome of one tick of the main menu.
#[derive(PartialEq, Eq, Structural, Copy, Clone, Debug)]
pub enum MainMenuResult {
    NoSelection { selected: MainMenuSelection },
    Selected { selected: MainMenuSelection },
}

/// Outcome of one tick of the game-over screen.
#[derive(PartialEq, Eq, Structural, Copy, Clone, Debug)]
pub enum GameOverResult {
    NoSelection,
    QuitToMenu,
}

/// The entry above `sel` in the main menu, wrapping around and skipping
/// LoadGame when no game is saved.
pub fn menu_up(sel: MainMenuSelection, game_saved: bool) -> (r: MainMenuSelection)
    ensures
        r == match sel {
            MainMenuSelection::NewGame => MainMenuSelection::Quit,
            MainMenuSelection::LoadGame => MainMenuSelection::NewGame,
            MainMenuSelection::Quit => if game_saved {
                MainMenuSelection::LoadGame
            } else {
                MainMenuSelection::NewGame
            },
        },
{
    let next = match sel {
        MainMenuSelection::NewGame => MainMenuSelection::Quit,
        MainMenuSelection::LoadGame => MainMenuSelection::NewGame,
        MainMenuSelection::Quit => MainMenuSelection::LoadGame,
    };
    if next == MainMenuSelection::LoadGame && !game_saved {
        MainMenuSelection::NewGame
    } else {
        next
    }
}

/// The entry below `sel` in the main menu, wrapping around and skipping
/// LoadGame when no game is saved.
pub fn menu_down(sel: MainMenuSelection, game_saved: bool) -> (r: MainMenuSelection)
    ensures
        r == match sel {
            MainMenuSelection::NewGame => if game_saved {
                MainMenuSelection::LoadGame
            } else {
                MainMenuSelection::Quit
            },
            MainMenuSelection::LoadGame => MainMenuSelection::Quit,
            MainMenuSelection::Quit => MainMenuSelection::NewGame,
        },
{
    let next = match sel {
        MainMenuSelection::NewGame => MainMenuSelection::LoadGame,
        MainMenuSelection::LoadGame => MainMenuSelection::Quit,
        MainMenuSelection::Quit => MainMenuSelection::NewGame,
    };
    if next == MainMenuSelection::LoadGame && !game_saved {
        MainMenuSelection::Quit
    } else {
        next
    }
}

/// Whether `cell` is within `range` tiles (straight-line) of `from`.
pub open spec fn spec_in_range(from: Position, cell: Position, range: i32) -> bool {
    range >= 0 && dist_sq(from.x as int, from.y as int, cell.x as int, cell.y as int) <= range
        * range
}

/// Whether a cell may be aimed at from `from` with an item of `range`.
pub fn in_target_range(from: Position, cell: Position, range: i32) -> (r: bool)
    ensures
        r == spec_in_range(from, cell, range),
{
    if range < 0 {
        return false;
    }
    let dx: i128 = from.x as i128 - cell.x as i128;
    let dy: i128 = from.y as i128 - cell.y as i128;
    assert(0 <= dx * dx <= 0x1_0000_0000_0000_0000) by (nonlinear_arith)
        requires
            -0x1_0000_0000 <= dx <= 0x1_0000_0000,
    ;
    assert(0 <= dy * dy <= 0x1_0000_0000_0000_0000) by (nonlinear_arith)
        requires
            -0x1_0000_0000 <= dy <= 0x1_0000_0000,
    ;
    let r: i128 = range as i128;
    assert(0 <= r * r <= 0x1_0000_0000_0000_0000) by (nonlinear_arith)
        requires
            0 <= r <= 0x1_0000_0000,
    ;
    dx * dx + dy * dy <= r * r
}

/// The visible cells that may be aimed at, in order.
pub open spec fn spec_target_cells(visible: Seq<Position>, from: Position, range: i32) -> Seq<Position>
    decreases visible.len(),
{
    if visible.len() == 0 {
        Seq::empty()
    } else {
        let prev = spec_target_cells(visible.drop_last(), from, range);
        if spec_in_range(from, visible.last(), range) {
            prev.push(visible.last())
        } else {
            prev
        }
    }
}

/// The cells of the player's view within `range` of the player.
pub fn target_cells(visible: &Vec<Position>, from: Position, range: i32) -> (r: Vec<Position>)
    ensures
        r@ == spec_target_cells(visible@, from, range),
{
    let mut out: Vec<Position> = Vec::new();
    let mut k: usize = 0;
    while k < visible.len()
        invariant
            k <= visible@.len(),
            out@ == spec_target_cells(visible@.subrange(0, k as int), from, range),
        decreases visible@.len() - k,
    {
        let p = visible[k];
        assert(visible@.subrange(0, k as int + 1).drop_last() =~= visible@.subrange(0, k as int));
        if in_target_range(from, p, range) {
            out.push(p);
        }
        k = k + 1;
    }
    assert(visible@.subrange(0, visible@.len() as int) =~= visible@);
    out
}

/// The outcome of a click while aiming: a click on an allowed cell selects
/// it, a click elsewhere cancels, and no click waits.
pub fn ranged_target_click(cells: &Vec<Position>, mouse: Position, clicked: bool) -> (r: (
    ItemMenuResult,
    Option<Position>,
))
    ensures
        !clicked ==> r == (ItemMenuResult::NoResponse, None::<Position>),
        clicked && cells@.contains(mouse) ==> r == (ItemMenuResult::Selected, Some(mouse)),
        clicked && !cells@.contains(mouse) ==> r == (ItemMenuResult::Cancel, None::<Position>),
{
    if !clicked {
        return (ItemMenuResult::NoResponse, None);
    }
    let mut k: usize = 0;
    while k < cells.len()
        invariant
            k <= cells@.len(),
            clicked,
            forall|j: int| 0 <= j < k ==> cells@[j] != mouse,
        decreases cells@.len() - k,
    {
        if cells[k] == mouse {
            return (ItemMenuResult::Selected, Some(mouse));
        }
        k = k + 1;
    }
    (ItemMenuResult::Cancel, None)
}

} // verus!
