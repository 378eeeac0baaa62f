//! Whole-pipeline laws: how plain text lays out on the grid, and what the
//! canvas of a single glyph looks like.

use vstd::prelude::*;

use crate::color::ColorType;
use crate::grid::{
    cells_sorted, has_key, insert_pos, lemma_insert_pos_props, lemma_spec_insert_sorted,
    sat_add32, spec_insert, Cell,
};
use crate::palette::{resolve, Palette};
use crate::raster::{bg_at, covers, first_cover_from, max_cell_x, max_cell_y, render_bounds_ok};
use crate::style::default_style;
use crate::vt::{initial_term, spec_feed, spec_step, TermModel, VtMode};

verus! {

/// Bytes holding only printable ASCII: no escape, control, or multi-byte
/// sequences.
pub open spec fn plain_printable(bytes: Seq<u8>) -> bool {
    forall|i: int| 0 <= i < bytes.len() ==> 0x20 <= #[trigger] bytes[i] <= 0x7e
}

/// The cursor position at which the `i`th printed character lands, under a
/// given glyph advance width, line height and optional wrap width.
pub open spec fn print_pos(
    advance: u32,
    line_height: u32,
    max_width: Option<u32>,
    i: int,
) -> (u32, u32)
    decreases i,
{
    if i <= 0 {
        (0u32, 0u32)
    } else {
        let p = print_pos(advance, line_height, max_width, i - 1);
        let nx = sat_add32(p.0, advance);
        let wrap = match max_width {
            Option::Some(w) => nx > w,
            Option::None => false,
        };
        if wrap {
            (0u32, sat_add32(p.1, line_height))
        } else {
            (nx, p.1)
        }
    }
}

/// Row-major order on positions: a later line, or further right on the
/// same line.
pub open spec fn pos_after(p: (u32, u32), q: (u32, u32)) -> bool {
    q.1 > p.1 || (q.1 == p.1 && q.0 > p.0)
}

proof fn lemma_mul_unfold(a: int, b: int)
    by (nonlinear_arith)
    ensures
        (a - 1) * b + b == a * b,
        a >= 1 && b >= 0 ==> (a - 1) * b <= a * b,
{
}

/// Print positions stay within `i` glyph advances and line heights of the
/// origin.
proof fn lemma_print_pos_bound(
    advance: u32,
    line_height: u32,
    max_width: Option<u32>,
    i: int,
)
    requires
        i >= 0,
    ensures
        0 <= print_pos(advance, line_height, max_width, i).0 <= i * advance,
        0 <= print_pos(advance, line_height, max_width, i).1 <= i * line_height,
    decreases i,
{
    if i > 0 {
        lemma_print_pos_bound(advance, line_height, max_width, i - 1);
        lemma_mul_unfold(i, advance as int);
        lemma_mul_unfold(i, line_height as int);
    }
}

/// Within a stream short enough not to saturate the cursor, each print
/// either moves strictly right on the same line or opens a later line.
proof fn lemma_print_pos_step(
    advance: u32,
    line_height: u32,
    max_width: Option<u32>,
    i: int,
    n: int,
)
    requires
        advance >= 1,
        line_height >= 1,
        0 <= i < n,
        n * advance <= u32::MAX,
        n * line_height <= u32::MAX,
    ensures
        pos_after(
            print_pos(advance, line_height, max_width, i),
            print_pos(advance, line_height, max_width, i + 1),
        ),
{
    lemma_print_pos_bound(advance, line_height, max_width, i);
    lemma_mul_unfold(i + 1, advance as int);
    lemma_mul_unfold(i + 1, line_height as int);
    assert((i + 1) * advance <= n * advance) by (nonlinear_arith)
        requires
            i + 1 <= n,
            advance >= 0,
    ;
    assert((i + 1) * line_height <= n * line_height) by (nonlinear_arith)
        requires
            i + 1 <= n,
            line_height >= 0,
    ;
}

/// Row-major order carries across any span of prints within the stream.
proof fn lemma_print_pos_ordered(
    advance: u32,
    line_height: u32,
    max_width: Option<u32>,
    i: int,
    j: int,
    n: int,
)
    requires
        advance >= 1,
        line_height >= 1,
        0 <= i < j <= n,
        n * advance <= u32::MAX,
        n * line_height <= u32::MAX,
    ensures
        pos_after(
            print_pos(advance, line_height, max_width, i),
            print_pos(advance, line_height, max_width, j),
        ),
    decreases j - i,
{
    lemma_print_pos_step(advance, line_height, max_width, j - 1, n);
    if i < j - 1 {
        lemma_print_pos_ordered(advance, line_height, max_width, i, j - 1, n);
    }
}

/// Inserting at a position keeps all old entries and adds the new one.
proof fn lemma_insert_elements(cells: Seq<((u32, u32), Cell)>, p: int, e: ((u32, u32), Cell))
    requires
        0 <= p <= cells.len(),
    ensures
        forall|j: int|
            0 <= j < cells.len() ==> exists|j2: int|
                0 <= j2 < cells.insert(p, e).len() && cells.insert(p, e)[j2] == #[trigger] cells[j],
        exists|j2: int| 0 <= j2 < cells.insert(p, e).len() && cells.insert(p, e)[j2] == e,
        forall|j2: int|
            0 <= j2 < cells.insert(p, e).len() ==> #[trigger] cells.insert(p, e)[j2] == e
                || exists|j: int| 0 <= j < cells.len() && cells[j] == cells.insert(p, e)[j2],
{
    let r = cells.insert(p, e);
    assert(r[p] == e);
    assert forall|j: int| 0 <= j < cells.len() implies exists|j2: int|
        0 <= j2 < r.len() && r[j2] == #[trigger] cells[j] by {
        if j < p {
            assert(r[j] == cells[j]);
        } else {
            assert(r[j + 1] == cells[j]);
        }
    }
    assert forall|j2: int| 0 <= j2 < r.len() implies #[trigger] r[j2] == e || exists|j: int|
        0 <= j < cells.len() && cells[j] == r[j2] by {
        if j2 < p {
            assert(cells[j2] == r[j2]);
        } else if j2 > p {
            assert(cells[j2 - 1] == r[j2]);
        }
    }
}

/// The cell that the `i`th character of a plain stream produces.
pub open spec fn expected_cell(
    bytes: Seq<u8>,
    advance: u32,
    line_height: u32,
    max_width: Option<u32>,
    i: int,
) -> ((u32, u32), Cell) {
    (
        print_pos(advance, line_height, max_width, i),
        Cell { character: bytes[i] as char, style: default_style() },
    )
}

/// Whether a cell vector holds this exact entry.
pub open spec fn cell_present(cells: Seq<((u32, u32), Cell)>, e: ((u32, u32), Cell)) -> bool {
    exists|j: int| 0 <= j < cells.len() && cells[j] == e
}

/// Whether a key is one of the first `k` print positions.
pub open spec fn key_among(
    key: (u32, u32),
    advance: u32,
    line_height: u32,
    max_width: Option<u32>,
    k: int,
) -> bool {
    exists|i: int| 0 <= i < k && key == print_pos(advance, line_height, max_width, i)
}

/// The state reached after feeding `k` printable characters: still in the
/// ground state and default style, the cursor at the `k`th print position,
/// and one cell per character, each at its print position with a snapshot
/// of the default style.
pub open spec fn plain_state_ok(
    t: TermModel,
    bytes: Seq<u8>,
    advance: u32,
    line_height: u32,
    max_width: Option<u32>,
    k: int,
) -> bool {
    &&& t.mode == VtMode::Ground
    &&& t.params == Seq::<u16>::empty()
    &&& t.current == 0
    &&& t.grid.style == default_style()
    &&& t.grid.advance == advance
    &&& t.grid.line_height == line_height
    &&& t.grid.max_width == max_width
    &&& t.grid.cursor_x == print_pos(advance, line_height, max_width, k).0
    &&& t.grid.cursor_y == print_pos(advance, line_height, max_width, k).1
    &&& t.grid.cells.len() == k
    &&& cells_sorted(t.grid.cells)
    &&& forall|i: int|
        0 <= i < k ==> cell_present(
            t.grid.cells,
            #[trigger] expected_cell(bytes, advance, line_height, max_width, i),
        )
    &&& forall|j: int|
        0 <= j < t.grid.cells.len() ==> key_among(
            (#[trigger] t.grid.cells[j]).0,
            advance,
            line_height,
            max_width,
            k,
        )
}

/// A byte stream with no escape sequences lays its characters out one per
/// cell, in the default style, at strictly advancing positions: rightward
/// within a line and downward across wraps.
pub proof fn lemma_plain_text_layout(
    bytes: Seq<u8>,
    advance: u32,
    line_height: u32,
    max_width: Option<u32>,
)
    requires
        plain_printable(bytes),
        advance >= 1,
        line_height >= 1,
        bytes.len() * advance <= u32::MAX,
        bytes.len() * line_height <= u32::MAX,
    ensures
        plain_state_ok(
            spec_feed(initial_term(advance, line_height, max_width), bytes),
            bytes,
            advance,
            line_height,
            max_width,
            bytes.len() as int,
        ),
        forall|i: int, j: int|
            0 <= i < j < bytes.len() ==> pos_after(
                #[trigger] print_pos(advance, line_height, max_width, i),
                #[trigger] print_pos(advance, line_height, max_width, j),
            ),
{
    let n = bytes.len() as int;
    lemma_plain_feed_prefix(bytes, advance, line_height, max_width, n);
    assert(bytes.take(n) =~= bytes);
    assert forall|i: int, j: int| 0 <= i < j < n implies pos_after(
        #[trigger] print_pos(advance, line_height, max_width, i),
        #[trigger] print_pos(advance, line_height, max_width, j),
    ) by {
        lemma_print_pos_ordered(advance, line_height, max_width, i, j, n);
    }
}

/// One printable byte takes a well-laid-out state one character further.
#[verifier::spinoff_prover]
#[verifier::rlimit(100)]
proof fn lemma_plain_step(
    t: TermModel,
    bytes: Seq<u8>,
    advance: u32,
    line_height: u32,
    max_width: Option<u32>,
    k: int,
)
    requires
        plain_printable(bytes),
        advance >= 1,
        line_height >= 1,
        bytes.len() * advance <= u32::MAX,
        bytes.len() * line_height <= u32::MAX,
        1 <= k <= bytes.len(),
        plain_state_ok(t, bytes, advance, line_height, max_width, k - 1),
    ensures
        plain_state_ok(spec_step(t, bytes[k - 1]), bytes, advance, line_height, max_width, k),
{
    let n = bytes.len() as int;
    let b = bytes[k - 1];
    assert(0x20 <= b <= 0x7e);
    let t1 = spec_step(t, b);

    let key = print_pos(advance, line_height, max_width, k - 1);
    let cell = Cell { character: b as char, style: default_style() };
    let cells = t.grid.cells;

    // The key is fresh: every existing key is an earlier print position.
    assert(!has_key(cells, key)) by {
        if has_key(cells, key) {
            let j = choose|j: int| 0 <= j < cells.len() && #[trigger] cells[j].0 == key;
            assert(key_among(cells[j].0, advance, line_height, max_width, k - 1));
            let i = choose|i: int|
                0 <= i < k - 1 && cells[j].0 == print_pos(advance, line_height, max_width, i);
            lemma_print_pos_ordered(advance, line_height, max_width, i, k - 1, n);
        }
    }
    lemma_spec_insert_sorted(cells, key, cell);
    lemma_insert_pos_props(cells, key);
    let p = insert_pos(cells, key);
    let inserted = spec_insert(cells, key, cell);
    assert(inserted == cells.insert(p, (key, cell)));

    // No cursor saturation within the stream's length bounds.
    lemma_print_pos_bound(advance, line_height, max_width, k - 1);
    lemma_mul_unfold(k, advance as int);
    lemma_mul_unfold(k, line_height as int);
    assert(k * advance <= n * advance) by (nonlinear_arith)
        requires
            k <= n,
            advance >= 0,
    ;
    assert(k * line_height <= n * line_height) by (nonlinear_arith)
        requires
            k <= n,
            line_height >= 0,
    ;

    assert(t1.grid.cells == inserted);
    assert(t1.grid.cursor_x == print_pos(advance, line_height, max_width, k).0);
    assert(t1.grid.cursor_y == print_pos(advance, line_height, max_width, k).1);

    assert forall|i: int| 0 <= i < k implies cell_present(
        t1.grid.cells,
        #[trigger] expected_cell(bytes, advance, line_height, max_width, i),
    ) by {
        let e = expected_cell(bytes, advance, line_height, max_width, i);
        if i < k - 1 {
            assert(cell_present(cells, e));
            let j = choose|j: int| 0 <= j < cells.len() && #[trigger] cells[j] == e;
            if j < p {
                assert(inserted[j] == e);
            } else {
                assert(inserted[j + 1] == e);
            }
        } else {
            assert(inserted[p] == (key, cell));
            assert(inserted[p] == e);
        }
    }
    assert forall|j: int| 0 <= j < t1.grid.cells.len() implies key_among(
        (#[trigger] t1.grid.cells[j]).0,
        advance,
        line_height,
        max_width,
        k,
    ) by {
        if j < p {
            assert(inserted[j] == cells[j]);
            assert(key_among(cells[j].0, advance, line_height, max_width, k - 1));
            let i = choose|i: int|
                0 <= i < k - 1 && cells[j].0 == print_pos(advance, line_height, max_width, i);
            assert(inserted[j].0 == print_pos(advance, line_height, max_width, i));
        } else if j > p {
            assert(inserted[j] == cells[j - 1]);
            assert(key_among(cells[j - 1].0, advance, line_height, max_width, k - 1));
            let i = choose|i: int|
                0 <= i < k - 1 && cells[j - 1].0 == print_pos(advance, line_height, max_width, i);
            assert(inserted[j].0 == print_pos(advance, line_height, max_width, i));
        } else {
            assert(inserted[p] == (key, cell));
            assert(inserted[j].0 == print_pos(advance, line_height, max_width, k - 1));
        }
    }
    assert(plain_state_ok(t1, bytes, advance, line_height, max_width, k));
}

/// Induction over stream prefixes for `lemma_plain_text_layout`.
#[verifier::spinoff_prover]
#[verifier::rlimit(100)]
proof fn lemma_plain_feed_prefix(
    bytes: Seq<u8>,
    advance: u32,
    line_height: u32,
    max_width: Option<u32>,
    k: int,
)
    requires
        plain_printable(bytes),
        advance >= 1,
        line_height >= 1,
        bytes.len() * advance <= u32::MAX,
        bytes.len() * line_height <= u32::MAX,
        0 <= k <= bytes.len(),
    ensures
        plain_state_ok(
            spec_feed(initial_term(advance, line_height, max_width), bytes.take(k)),
            bytes,
            advance,
            line_height,
            max_width,
            k,
        ),
    decreases k,
{
    let t0 = initial_term(advance, line_height, max_width);
    if k == 0 {
        assert(bytes.take(0) =~= Seq::<u8>::empty());
        assert(spec_feed(t0, Seq::<u8>::empty()) == t0);
    } else {
        lemma_plain_feed_prefix(bytes, advance, line_height, max_width, k - 1);
        let t = spec_feed(t0, bytes.take(k - 1));
        let b = bytes[k - 1];
        assert(bytes.take(k) =~= bytes.take(k - 1) + seq![b]);
        crate::vt::lemma_feed_append(t0, bytes.take(k - 1), seq![b]);
        assert(seq![b].skip(1) =~= Seq::<u8>::empty());
        assert(seq![b][0] == b);
        assert(spec_feed(spec_step(t, b), Seq::<u8>::empty()) == spec_step(t, b));
        assert(spec_feed(t, seq![b]) == spec_step(t, b));
        lemma_plain_step(t, bytes, advance, line_height, max_width, k);
    }
}

/// A single printable character with no control codes yields a canvas of
/// exactly one glyph box, entirely in the primary background (the glyph's
/// own pixels are painted later, by the foreground pass).
pub proof fn lemma_single_glyph_canvas(b: u8, advance: u32, line_height: u32, p: Palette)
    requires
        0x20 <= b <= 0x7e,
        advance >= 1,
        line_height >= 1,
        advance as int * line_height as int <= usize::MAX,
        p.wf(),
    ensures
        ({
            let g = spec_feed(initial_term(advance, line_height, Option::None), seq![b]).grid;
            &&& g.cells.len() == 1
            &&& g.cells[0] == (
                (0u32, 0u32),
                Cell { character: b as char, style: default_style() },
            )
            &&& render_bounds_ok(g.cells, advance, line_height)
            &&& max_cell_x(g.cells) + advance == advance
            &&& max_cell_y(g.cells) + line_height == line_height
            &&& forall|x: int, y: int|
                0 <= x < advance && 0 <= y < line_height ==> bg_at(
                    g.cells,
                    p,
                    x,
                    y,
                    advance as int,
                    line_height as int,
                ) == resolve(p, ColorType::PrimaryBackground)
        }),
{
    let t0 = initial_term(advance, line_height, Option::None);
    assert(seq![b].skip(1) =~= Seq::<u8>::empty());
    let t1 = spec_step(t0, b);
    assert(spec_feed(t0, seq![b]) == spec_feed(t1, seq![b].skip(1)));
    let g = t1.grid;
    let single = seq![((0u32, 0u32), Cell { character: b as char, style: default_style() })];
    assert(g.cells =~= single);
    assert(single.drop_last() =~= Seq::<((u32, u32), Cell)>::empty());
    assert(max_cell_x(single.drop_last()) == 0);
    assert(max_cell_y(single.drop_last()) == 0);
    assert(single.last() == single[0]);
    assert(max_cell_x(single) == 0);
    assert(max_cell_y(single) == 0);
    assert forall|x: int, y: int| 0 <= x < advance && 0 <= y < line_height implies bg_at(
        g.cells,
        p,
        x,
        y,
        advance as int,
        line_height as int,
    ) == resolve(p, ColorType::PrimaryBackground) by {
        assert(covers(g.cells[0], x, y, advance as int, line_height as int));
        assert(first_cover_from(g.cells, 0, x, y, advance as int, line_height as int)
            == Option::Some(0int));
        assert(g.cells[0].1.style.background == ColorType::PrimaryBackground);
    }
}

} // verus!
