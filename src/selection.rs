//! Selection and scrolling: where the highlight moves, how it is kept inside
//! a list whose length changes, and which rows of the list are on screen.

use vstd::prelude::*;

verus! {

/// The highlight after moving up in a list of `len` rows: one row up, from
/// the first row round to the last; nothing moves in an empty list.
pub open spec fn up_index(index: int, len: int) -> int {
    if len == 0 {
        index
    } else if index > 0 {
        index - 1
    } else {
        len - 1
    }
}

/// The highlight after moving down in a list of `len` rows: one row down,
/// from the last row round to the first; nothing moves in an empty list.
pub open spec fn down_index(index: int, len: int) -> int {
    if len == 0 {
        index
    } else if index < len - 1 {
        index + 1
    } else {
        0
    }
}

/// The highlight kept inside a list that now has `len` rows: past the end it
/// goes to the last row, and to 0 (no row) once the list is empty.
pub open spec fn clamp_index(index: int, len: int) -> int {
    if len == 0 {
        0
    } else if index >= len {
        len - 1
    } else {
        index
    }
}

/// A highlight that is valid for a list of `len` rows: a row of it, or 0
/// when the list is empty.
pub open spec fn valid_index(index: int, len: int) -> bool {
    if len == 0 {
        index == 0
    } else {
        0 <= index < len
    }
}

/// Moves the highlight up one row, wrapping round at the top.
pub fn move_up(index: usize, len: usize) -> (r: usize)
    requires
        valid_index(index as int, len as int),
    ensures
        r == up_index(index as int, len as int),
        valid_index(r as int, len as int),
{
    if len == 0 {
        index
    } else if index > 0 {
        index - 1
    } else {
        len - 1
    }
}

/// Moves the highlight down one row, wrapping round at the bottom.
pub fn move_down(index: usize, len: usize) -> (r: usize)
    requires
        valid_index(index as int, len as int),
    ensures
        r == down_index(index as int, len as int),
        valid_index(r as int, len as int),
{
    if len == 0 {
        index
    } else if index < len - 1 {
        index + 1
    } else {
        0
    }
}

/// Keeps the highlight inside a list that now has `len` rows.
pub fn clamp_selection(index: usize, len: usize) -> (r: usize)
    ensures
        r == clamp_index(index as int, len as int),
        valid_index(r as int, len as int),
        index < len ==> r == index,
{
    if len == 0 {
        0
    } else if index >= len {
        len - 1
    } else {
        index
    }
}

/// Rows available to the list on a terminal of `terminal_rows` rows: one is
/// kept for the status line, and at least one row is always given.
pub fn viewport_height(terminal_rows: i32) -> (r: usize)
    ensures
        r >= 1,
        r as int == if terminal_rows - 1 >= 1 {
            terminal_rows - 1
        } else {
            1
        },
{
    if terminal_rows > 1 {
        (terminal_rows - 1) as usize
    } else {
        1
    }
}

/// The first row shown when row `index` is highlighted in a viewport of
/// `height` rows.
pub open spec fn scroll_offset_of(index: int, height: int) -> int {
    if index >= height {
        index - height + 1
    } else {
        0
    }
}

/// The first row to show so that row `index` is on screen: the list scrolls
/// only as far as the highlight has gone past the viewport.
pub fn scroll_offset(index: usize, height: usize) -> (r: usize)
    requires
        height >= 1,
    ensures
        r as int == scroll_offset_of(index as int, height as int),
        r <= index < r + height,
{
    if index >= height {
        index - height + 1
    } else {
        0
    }
}

/// The rows of a list of `len` rows on screen while row `index` is
/// highlighted in a viewport of `height` rows: from the scroll offset up to
/// `height` rows, not past the end of the list.
pub fn visible_range(index: usize, len: usize, height: usize) -> (r: (usize, usize))
    requires
        height >= 1,
    ensures
        r.0 as int == scroll_offset_of(index as int, height as int),
        r.1 as int == if r.0 + height <= len {
            r.0 + height
        } else if r.0 <= len {
            len as int
        } else {
            r.0 as int
        },
        r.0 <= r.1,
        index < len ==> r.0 <= index < r.1,
{
    let start = scroll_offset(index, height);
    let end = if start <= len && len - start >= height {
        start + height
    } else if start <= len {
        len
    } else {
        start
    };
    (start, end)
}

/// A move of the highlight.
#[derive(Debug, Clone, Copy, PartialEq, Eq, Structural)]
pub enum Move {
    Up,
    Down,
}

/// The highlight after the moves `moves`, made in order, in a list of `len`
/// rows.
pub open spec fn after_moves(index: int, len: int, moves: Seq<Move>) -> int
    decreases moves.len(),
{
    if moves.len() == 0 {
        index
    } else {
        let next = match moves[0] {
            Move::Up => up_index(index, len),
            Move::Down => down_index(index, len),
        };
        after_moves(next, len, moves.drop_first())
    }
}

/// In a list of `n` rows, any run of moves keeps the highlight on a row;
/// moving up from the first row reaches the last, and moving down from the
/// last row reaches the first.
pub proof fn lemma_moves_stay_in_list(index: int, n: int, moves: Seq<Move>)
    requires
        n > 0,
        0 <= index < n,
    ensures
        0 <= after_moves(index, n, moves) < n,
        up_index(0, n) == n - 1,
        down_index(n - 1, n) == 0,
    decreases moves.len(),
{
    if moves.len() > 0 {
        let next = match moves[0] {
            Move::Up => up_index(index, n),
            Move::Down => down_index(index, n),
        };
        lemma_moves_stay_in_list(next, n, moves.drop_first());
    }
}

} // verus!
