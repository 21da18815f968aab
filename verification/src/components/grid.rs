//! Keyboard navigation over a grid laid out row by row.
use vstd::prelude::*;

verus! {

/// Direction of a grid navigation step.
#[derive(Debug, Clone, Copy, PartialEq, Eq, Structural)]
pub enum GridDir {
    Left,
    Right,
    Up,
    Down,
}

/// The index a step in `dir` leads to from `selected`, over `count` items
/// in rows of `cols` (at least one) columns: nothing without items, the
/// first item without a selection, and otherwise the neighbour in that
/// direction, held inside the grid (a stale selection counts as the last
/// item).
pub open spec fn grid_step_spec(selected: Option<usize>, dir: GridDir, count: int, cols: int) -> Option<int> {
    if count == 0 {
        None
    } else {
        let cols = if cols < 1 {
            1
        } else {
            cols
        };
        match selected {
            None => Some(0),
            Some(s) => {
                let c = if s < count - 1 {
                    s as int
                } else {
                    count - 1
                };
                Some(
                    match dir {
                        GridDir::Right => if c + 1 < count - 1 {
                            c + 1
                        } else {
                            count - 1
                        },
                        GridDir::Left => if c >= 1 {
                            c - 1
                        } else {
                            0
                        },
                        GridDir::Down => if c + cols < count {
                            c + cols
                        } else {
                            count - 1
                        },
                        GridDir::Up => if c >= cols {
                            c - cols
                        } else {
                            0
                        },
                    },
                )
            },
        }
    }
}

/// Resolve the next selected index for a 2D grid laid out row-major with `cols`
/// columns over `count` items.
pub fn grid_step(selected: Option<usize>, dir: GridDir, count: usize, cols: usize) -> (r: Option<
    usize,
>)
    requires
        count > 0 && dir == GridDir::Down ==> match selected {
            Some(s) => (if s < count - 1 {
                s as int
            } else {
                count - 1
            }) + (if cols < 1 {
                1
            } else {
                cols as int
            }) <= usize::MAX,
            None => true,
        },
    ensures
        match r {
            Some(i) => grid_step_spec(selected, dir, count as int, cols as int) == Some(i as int),
            None => grid_step_spec(selected, dir, count as int, cols as int) is None,
        },
        r matches Some(i) ==> i < count,
{
    if count == 0 {
        return None;
    }
    let cols = if cols < 1 {
        1
    } else {
        cols
    };
    let current = match selected {
        Some(current) => current,
        None => {
            return Some(0);
        },
    };
    let current = if current < count - 1 {
        current
    } else {
        count - 1
    };
    let next = match dir {
        GridDir::Right => if current + 1 < count - 1 {
            current + 1
        } else {
            count - 1
        },
        GridDir::Left => if current >= 1 {
            current - 1
        } else {
            0
        },
        GridDir::Down => {
            let down = current + cols;
            if down < count {
                down
            } else {
                count - 1
            }
        },
        GridDir::Up => if current >= cols {
            current - cols
        } else {
            0
        },
    };
    Some(next)
}

/// A step right and then a step left come back to where they started,
/// from every item but the last.
pub proof fn law_right_then_left(s: usize, count: int, cols: int)
    requires
        s + 1 < count,
        count <= usize::MAX,
    ensures
        grid_step_spec(
            Some(grid_step_spec(Some(s), GridDir::Right, count, cols).unwrap() as usize),
            GridDir::Left,
            count,
            cols,
        ) == Some(s as int),
{
}

/// A step down and then a step up come back to where they started, from
/// every item with an item below it.
pub proof fn law_down_then_up(s: usize, count: int, cols: int)
    requires
        s + (if cols < 1 {
            1
        } else {
            cols
        }) < count,
        count <= usize::MAX,
    ensures
        grid_step_spec(
            Some(grid_step_spec(Some(s), GridDir::Down, count, cols).unwrap() as usize),
            GridDir::Up,
            count,
            cols,
        ) == Some(s as int),
{
}

/// Every step from a selection in a non-empty grid lands on an item.
pub proof fn law_step_stays_in_grid(selected: Option<usize>, dir: GridDir, count: int, cols: int)
    requires
        count > 0,
    ensures
        grid_step_spec(selected, dir, count, cols) matches Some(i) && 0 <= i < count,
{
}

} // verus!
