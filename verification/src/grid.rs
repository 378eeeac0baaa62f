//! The terminal state: cursor position, active style, and the sparse cell
//! grid keyed by pixel coordinates.
//!
//! Cells are kept in a vector sorted strictly by key, which makes it an
//! ordered map from `(x, y)` pixel origins to cells with last-write-wins
//! insertion: printing onto an occupied origin replaces the cell.

use vstd::prelude::*;

use crate::escape::{sgr_actions, EscapeSequence};
use crate::style::{apply_action, apply_actions, default_style, Style};

verus! {

/// One printed character with the style snapshot taken when it was printed.
#[derive(Clone, Copy, Debug, PartialEq, Eq, Structural)]
pub struct Cell {
    pub character: char,
    pub style: Style,
}

/// Lexicographic order on pixel keys: by x, then by y.
pub open spec fn key_lt(a: (u32, u32), b: (u32, u32)) -> bool {
    a.0 < b.0 || (a.0 == b.0 && a.1 < b.1)
}

/// The cell vector is sorted strictly by key (so keys are unique).
pub open spec fn cells_sorted(cells: Seq<((u32, u32), Cell)>) -> bool {
    forall|i: int, j: int|
        0 <= i < j < cells.len() ==> #[trigger] key_lt(cells[i].0, cells[j].0)
}

/// Where a key belongs in a sorted cell vector: the number of leading
/// entries whose key is smaller.
pub open spec fn insert_pos(cells: Seq<((u32, u32), Cell)>, key: (u32, u32)) -> int
    decreases cells.len(),
{
    if cells.len() == 0 {
        0
    } else if key_lt(cells[0].0, key) {
        1 + insert_pos(cells.skip(1), key)
    } else {
        0
    }
}

/// Insertion with last-write-wins: a cell with an equal key is replaced,
/// otherwise the new cell enters at its sorted position.
pub open spec fn spec_insert(
    cells: Seq<((u32, u32), Cell)>,
    key: (u32, u32),
    c: Cell,
) -> Seq<((u32, u32), Cell)> {
    let p = insert_pos(cells, key);
    if p < cells.len() && cells[p].0 == key {
        cells.update(p, (key, c))
    } else {
        cells.insert(p, (key, c))
    }
}

pub proof fn lemma_insert_pos_props(cells: Seq<((u32, u32), Cell)>, key: (u32, u32))
    ensures
        0 <= insert_pos(cells, key) <= cells.len(),
        forall|j: int| 0 <= j < insert_pos(cells, key) ==> key_lt(#[trigger] cells[j].0, key),
        insert_pos(cells, key) < cells.len() ==> !key_lt(
            cells[insert_pos(cells, key)].0,
            key,
        ),
    decreases cells.len(),
{
    if cells.len() > 0 && key_lt(cells[0].0, key) {
        lemma_insert_pos_props(cells.skip(1), key);
        assert forall|j: int| 0 <= j < insert_pos(cells, key) implies key_lt(
            #[trigger] cells[j].0,
            key,
        ) by {
            if j > 0 {
                assert(cells.skip(1)[j - 1] == cells[j]);
                assert(key_lt(cells.skip(1)[j - 1].0, key));
            }
        }
        if insert_pos(cells, key) < cells.len() {
            assert(cells.skip(1)[insert_pos(cells, key) - 1] == cells[insert_pos(cells, key)]);
        }
    }
}

/// Insertion preserves sortedness.
pub proof fn lemma_spec_insert_sorted(cells: Seq<((u32, u32), Cell)>, key: (u32, u32), c: Cell)
    requires
        cells_sorted(cells),
    ensures
        cells_sorted(spec_insert(cells, key, c)),
        spec_insert(cells, key, c).len() == if has_key(cells, key) {
            cells.len() as int
        } else {
            cells.len() + 1int
        },
{
    lemma_insert_pos_props(cells, key);
    let p = insert_pos(cells, key);
    if p < cells.len() && cells[p].0 == key {
        let r = cells.update(p, (key, c));
        assert forall|i: int, j: int| 0 <= i < j < r.len() implies #[trigger] key_lt(
            r[i].0,
            r[j].0,
        ) by {
            assert(key_lt(cells[i].0, cells[j].0));
        }
        assert(has_key(cells, key));
    } else {
        let r = cells.insert(p, (key, c));
        assert forall|i: int, j: int| 0 <= i < j < r.len() implies #[trigger] key_lt(
            r[i].0,
            r[j].0,
        ) by {
            if i < p && j == p {
                assert(key_lt(cells[i].0, key));
            } else if i == p && j > p {
                assert(p < cells.len());
                assert(!key_lt(cells[p].0, key));
                assert(cells[p].0 != key);
                assert(key_lt(key, cells[p].0));
                if j - 1 > p {
                    assert(key_lt(cells[p].0, cells[j - 1].0));
                }
            } else if i < p && j > p {
                assert(key_lt(cells[i].0, cells[j - 1].0));
            } else if i > p && j > p {
                assert(key_lt(cells[i - 1].0, cells[j - 1].0));
            } else {
                assert(key_lt(cells[i].0, cells[j].0));
            }
        }
        assert(!has_key(cells, key)) by {
            if has_key(cells, key) {
                let w = choose|w: int| 0 <= w < cells.len() && cells[w].0 == key;
                if w < p {
                    assert(key_lt(cells[w].0, key));
                } else if w > p {
                    assert(key_lt(cells[p].0, cells[w].0));
                    assert(!key_lt(cells[p].0, key));
                }
            }
        }
    }
}

/// Whether some cell already sits at this key.
pub open spec fn has_key(cells: Seq<((u32, u32), Cell)>, key: (u32, u32)) -> bool {
    exists|i: int| 0 <= i < cells.len() && #[trigger] cells[i].0 == key
}

fn key_lt_exec(a: (u32, u32), b: (u32, u32)) -> (r: bool)
    ensures
        r == key_lt(a, b),
{
    a.0 < b.0 || (a.0 == b.0 && a.1 < b.1)
}

/// Inserts a cell into a sorted cell vector, replacing any cell at the same
/// key.
fn insert_cell(cells: &mut Vec<((u32, u32), Cell)>, key: (u32, u32), c: Cell)
    requires
        cells_sorted(old(cells)@),
    ensures
        final(cells)@ == spec_insert(old(cells)@, key, c),
        cells_sorted(final(cells)@),
{
    let n = cells.len();
    let mut i: usize = 0;
    while i < n && key_lt_exec(cells[i].0, key)
        invariant
            n == cells@.len(),
            0 <= i <= n,
            forall|j: int| 0 <= j < i ==> key_lt(#[trigger] cells@[j].0, key),
        decreases n - i,
    {
        i = i + 1;
    }
    proof {
        lemma_insert_pos_props(cells@, key);
        let p = insert_pos(cells@, key);
        if i < p {
            assert(key_lt(cells@[i as int].0, key));
            assert(false);
        }
        if p < i {
            assert(key_lt(cells@[p].0, key));
            assert(false);
        }
        lemma_spec_insert_sorted(cells@, key, c);
    }
    let found = if i < n {
        let k = cells[i].0;
        k.0 == key.0 && k.1 == key.1
    } else {
        false
    };
    if found {
        cells[i] = (key, c);
    } else {
        cells.insert(i, (key, c));
    }
}

/// The full terminal state, as one specification-level value.
#[verifier::ext_equal]
pub ghost struct GridModel {
    pub cells: Seq<((u32, u32), Cell)>,
    pub cursor_x: u32,
    pub cursor_y: u32,
    pub style: Style,
    pub advance: u32,
    pub line_height: u32,
    pub max_width: Option<u32>,
}

/// Addition on `u32` that sticks at the maximum instead of wrapping.
pub open spec fn sat_add32(a: u32, b: u32) -> u32 {
    if a + b > u32::MAX {
        u32::MAX
    } else {
        (a + b) as u32
    }
}

/// Printing: the character enters the grid at the cursor with a snapshot of
/// the current style; the cursor advances by the glyph advance width and
/// wraps to the next line when it passes the configured maximum width.
pub open spec fn spec_print(g: GridModel, c: char) -> GridModel {
    let cells = spec_insert(g.cells, (g.cursor_x, g.cursor_y), Cell { character: c, style: g.style });
    let nx = sat_add32(g.cursor_x, g.advance);
    let wrap = match g.max_width {
        Option::Some(w) => nx > w,
        Option::None => false,
    };
    if wrap {
        GridModel {
            cells,
            cursor_x: 0,
            cursor_y: sat_add32(g.cursor_y, g.line_height),
            ..g
        }
    } else {
        GridModel { cells, cursor_x: nx, ..g }
    }
}

/// Control bytes: carriage return moves the cursor to column zero, line
/// feed additionally opens a new line; every other control byte is inert.
pub open spec fn spec_execute(g: GridModel, byte: u8) -> GridModel {
    if byte == 0x0d {
        GridModel { cursor_x: 0, ..g }
    } else if byte == 0x0a {
        GridModel { cursor_x: 0, cursor_y: sat_add32(g.cursor_y, g.line_height), ..g }
    } else {
        g
    }
}

/// A completed SGR sequence folds its actions into the active style.
pub open spec fn spec_apply_sgr(g: GridModel, params: Seq<u16>) -> GridModel {
    GridModel { style: apply_actions(g.style, sgr_actions(params)), ..g }
}

/// The terminal state owned by one conversion.
pub struct TextGrid {
    pub cells: Vec<((u32, u32), Cell)>,
    pub cursor_x: u32,
    pub cursor_y: u32,
    pub style: Style,
    pub advance: u32,
    pub line_height: u32,
    pub max_width: Option<u32>,
}

impl View for TextGrid {
    type V = GridModel;

    open spec fn view(&self) -> GridModel {
        GridModel {
            cells: self.cells@,
            cursor_x: self.cursor_x,
            cursor_y: self.cursor_y,
            style: self.style,
            advance: self.advance,
            line_height: self.line_height,
            max_width: self.max_width,
        }
    }
}

/// The state of a fresh grid, before any byte has been consumed.
pub open spec fn initial_grid(advance: u32, line_height: u32, max_width: Option<u32>) -> GridModel {
    GridModel {
        cells: Seq::empty(),
        cursor_x: 0,
        cursor_y: 0,
        style: default_style(),
        advance,
        line_height,
        max_width,
    }
}

impl TextGrid {
    pub open spec fn wf(&self) -> bool {
        cells_sorted(self@.cells)
    }

    /// A fresh grid for the given glyph advance width, line height, and
    /// optional maximum pixel width.
    pub fn new(advance: u32, line_height: u32, max_width: Option<u32>) -> (g: TextGrid)
        ensures
            g@ == initial_grid(advance, line_height, max_width),
            g.wf(),
    {
        let g = TextGrid {
            cells: Vec::new(),
            cursor_x: 0,
            cursor_y: 0,
            style: Style::default(),
            advance,
            line_height,
            max_width,
        };
        proof {
            assert(g@ =~= initial_grid(advance, line_height, max_width));
        }
        g
    }

    /// Prints one character at the cursor.
    pub fn print(&mut self, c: char)
        requires
            old(self).wf(),
        ensures
            final(self)@ == spec_print(old(self)@, c),
            final(self).wf(),
    {
        let key = (self.cursor_x, self.cursor_y);
        insert_cell(&mut self.cells, key, Cell { character: c, style: self.style });
        let nx = self.cursor_x.saturating_add(self.advance);
        let wrap = match self.max_width {
            Some(w) => nx > w,
            None => false,
        };
        if wrap {
            self.cursor_x = 0;
            self.cursor_y = self.cursor_y.saturating_add(self.line_height);
        } else {
            self.cursor_x = nx;
        }
        proof {
            assert(self@ =~= spec_print(old(self)@, c));
        }
    }

    /// Handles one C0 control byte.
    pub fn execute(&mut self, byte: u8)
        requires
            old(self).wf(),
        ensures
            final(self)@ == spec_execute(old(self)@, byte),
            final(self).wf(),
    {
        if byte == 0x0d {
            self.cursor_x = 0;
        } else if byte == 0x0a {
            self.cursor_x = 0;
            self.cursor_y = self.cursor_y.saturating_add(self.line_height);
        }
        proof {
            assert(self@ =~= spec_execute(old(self)@, byte));
        }
    }

    /// Folds a completed SGR parameter list into the active style.
    pub fn apply_sgr(&mut self, params: &Vec<u16>)
        requires
            old(self).wf(),
        ensures
            final(self)@ == spec_apply_sgr(old(self)@, params@),
            final(self).wf(),
    {
        let actions = EscapeSequence::parse_params(params);
        let n = actions.len();
        let mut i: usize = 0;
        while i < n
            invariant
                n == actions@.len(),
                actions@ == sgr_actions(params@),
                0 <= i <= n,
                self.style == apply_actions(old(self)@.style, actions@.take(i as int)),
                self.cells@ == old(self)@.cells,
                self.cursor_x == old(self)@.cursor_x,
                self.cursor_y == old(self)@.cursor_y,
                self.advance == old(self)@.advance,
                self.line_height == old(self)@.line_height,
                self.max_width == old(self)@.max_width,
            decreases n - i,
        {
            let ghost before = self.style;
            self.style = self.style.apply(&actions[i]);
            proof {
                assert(actions@.take(i + 1) =~= actions@.take(i as int).push(actions@[i as int]));
                lemma_apply_actions_push(
                    old(self)@.style,
                    actions@.take(i as int),
                    actions@[i as int],
                );
            }
            i = i + 1;
        }
        proof {
            assert(actions@.take(n as int) =~= actions@);
            assert(self@ =~= spec_apply_sgr(old(self)@, params@));
        }
    }
}

/// Folding one more action onto an action sequence applies it last.
pub proof fn lemma_apply_actions_push(s: Style, a: Seq<EscapeSequence>, x: EscapeSequence)
    ensures
        apply_actions(s, a.push(x)) == apply_action(apply_actions(s, a), x),
    decreases a.len(),
{
    if a.len() == 0 {
        assert(a.push(x)[0] == x);
        assert(a.push(x).skip(1) =~= Seq::<EscapeSequence>::empty());
        assert(apply_actions(apply_action(s, x), a.push(x).skip(1)) == apply_action(s, x));
        assert(apply_actions(s, a.push(x)) == apply_action(s, x));
    } else {
        assert(a.push(x)[0] == a[0]);
        assert(a.push(x).skip(1) =~= a.skip(1).push(x));
        lemma_apply_actions_push(apply_action(s, a[0]), a.skip(1), x);
    }
}

} // verus!
