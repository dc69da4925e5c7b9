//! The card grid's geometry, the footer's key hints, card styles, and the
//! reading of ANSI-styled preview lines.
use vstd::prelude::*;

use crate::style::{
    BOLD, TermColor, ITALIC, Style, StyledText, StyledTextView, UNDERLINED, adding, line_view, plain,
    removing, styled, with_bg, with_fg,
};
use crate::text::{decimal_value, from_chars, parse_decimal, push_char, split, split_all_ranges, to_chars};

verus! {

/// The narrowest card a fixed thumbnail width may ask for.
pub const MIN_CARD_WIDTH: u16 = 32;

/// The lowest card height the layout aims at.
pub const MIN_CARD_HEIGHT: u16 = 10;

/// The gap between neighbouring cards, in cells.
pub const CARD_GAP: u16 = 2;

/// The height of the footer line.
pub const FOOTER_HEIGHT: u16 = 1;

/// A rectangle of terminal cells.
#[derive(Clone, Copy, Debug, PartialEq, Eq, Structural)]
pub struct Rect {
    pub x: u16,
    pub y: u16,
    pub width: u16,
    pub height: u16,
}

impl Rect {
    /// The rectangle at `(x, y)` of the given size, its width and height cut
    /// so that it ends within the coordinate range.
    pub fn new(x: u16, y: u16, width: u16, height: u16) -> (r: Rect)
        ensures
            r.x == x,
            r.y == y,
            r.width == min_int(width as int, u16::MAX - x),
            r.height == min_int(height as int, u16::MAX - y),
    {
        let max_width = u16::MAX - x;
        let max_height = u16::MAX - y;
        let width = if width > max_width {
            max_width
        } else {
            width
        };
        let height = if height > max_height {
            max_height
        } else {
            height
        };
        Rect { x, y, width, height }
    }
}

/// The card rectangles of a grid, with its number of columns and rows.
#[derive(Debug, Clone, PartialEq, Eq)]
pub struct GridLayout {
    pub columns: usize,
    pub rows: usize,
    pub cards: Vec<Rect>,
}

/// The smaller of two integers.
pub open spec fn min_int(a: int, b: int) -> int {
    if a <= b {
        a
    } else {
        b
    }
}

/// The larger of two integers.
pub open spec fn max_int(a: int, b: int) -> int {
    if a >= b {
        a
    } else {
        b
    }
}

/// `a - b`, or 0 where that is negative.
pub open spec fn sat_sub(a: int, b: int) -> int {
    if a >= b {
        a - b
    } else {
        0
    }
}

/// `v` capped at `u16::MAX`.
pub open spec fn sat16(v: int) -> int {
    min_int(v, u16::MAX as int)
}

/// The total gap between `n` cards along one axis (saturating at `u16::MAX`).
pub open spec fn gaps(n: int) -> int {
    sat16(CARD_GAP * (n - 1))
}

/// The length `n` cards share along an axis of length `len`, after the gaps,
/// and at least one cell per card.
pub open spec fn usable(len: int, n: int) -> int {
    max_int(sat_sub(len, gaps(n)), n)
}

/// The length of the `i`-th of `n` cards sharing an axis of length `len`: an
/// equal share, the first cards one cell longer for the remainder.
pub open spec fn card_len(len: int, n: int, i: int) -> int {
    usable(len, n) / n + if i < usable(len, n) % n {
        1int
    } else {
        0int
    }
}

/// Where the `i`-th of `n` cards starts along an axis of length `len`: the
/// lengths of the cards before it plus their gaps.
pub open spec fn card_offset(len: int, n: int, i: int) -> int {
    i * (usable(len, n) / n) + min_int(i, usable(len, n) % n) + sat16(CARD_GAP * i)
}

/// The number of rows `count` cards take in `columns` columns.
pub open spec fn rows_for(count: int, columns: int) -> int {
    count / columns + if count % columns != 0 {
        1int
    } else {
        0int
    }
}

/// The columns a minimum card width gives: as many as fit with their gaps,
/// at least one.
pub open spec fn columns_for_width(width: int, min_card_width: int) -> int {
    max_int(1, sat16(width + CARD_GAP) / sat16(max_int(min_card_width, 1) + CARD_GAP))
}

/// The score of laying out `count` cards in `c` columns in `area`, smaller
/// being better: whether it is a single row or column (for more than two
/// cards), the empty slots of the last row, how far a card is from a 16:10
/// aspect (in cells, weighted 10 and 16), and, negated, a card's area.
pub open spec fn layout_score(area: Rect, count: int, c: int) -> (int, int, int, int) {
    let rows = rows_for(count, c);
    let empty = min_int(c * rows, usize::MAX as int) - count;
    let single = if count > 2 && (c == 1 || rows == 1) {
        1int
    } else {
        0int
    };
    let w = sat_sub(area.width as int, sat16(CARD_GAP * (c - 1))) / c;
    let rows16 = rows % 65536;
    let h = if rows16 == 0 {
        area.height as int
    } else {
        sat_sub(area.height as int, sat16(CARD_GAP * ((rows - 1) % 65536))) / rows16
    };
    let aspect = if w * 10 >= h * 16 {
        w * 10 - h * 16
    } else {
        h * 16 - w * 10
    };
    (single, empty, aspect, -(w * h))
}

/// Lexicographic order of scores.
pub open spec fn score_lt(a: (int, int, int, int), b: (int, int, int, int)) -> bool {
    ||| a.0 < b.0
    ||| a.0 == b.0 && a.1 < b.1
    ||| a.0 == b.0 && a.1 == b.1 && a.2 < b.2
    ||| a.0 == b.0 && a.1 == b.1 && a.2 == b.2 && a.3 < b.3
}

/// The most columns the automatic layout tries.
pub open spec fn max_columns(count: int) -> int {
    min_int(count, u16::MAX as int)
}

/// `c` is the first of the columns `1..=max_columns(count)` with the lowest
/// score.
pub open spec fn is_best_columns(area: Rect, count: int, c: int) -> bool {
    &&& 1 <= c <= max_columns(count)
    &&& forall|d: int|
        1 <= d <= max_columns(count) ==> !score_lt(
            #[trigger] layout_score(area, count, d),
            layout_score(area, count, c),
        )
    &&& forall|d: int|
        1 <= d < c ==> score_lt(layout_score(area, count, c), #[trigger] layout_score(area, count, d))
}

/// The columns the automatic layout picks for `count` cards: with a minimum
/// card width, as many as fit; else the best-scoring count (1 for no cards).
pub open spec fn auto_columns(area: Rect, count: int, min_card_width: Option<u16>) -> int {
    match min_card_width {
        Some(m) => columns_for_width(area.width as int, m as int),
        None => if count >= 1 {
            choose|c: int| is_best_columns(area, count, c)
        } else {
            1
        },
    }
}

/// The columns of the grid: the forced count or the automatic one, at most
/// one per card and at most `u16::MAX`, at least one.
pub open spec fn grid_columns(area: Rect, count: int, min_card_width: Option<u16>, forced_columns: Option<usize>) -> int {
    let c = match forced_columns {
        Some(f) => f as int,
        None => auto_columns(area, count, min_card_width),
    };
    max_int(1, min_int(min_int(c, count), u16::MAX as int))
}

/// Whether the grid has any card to lay out.
pub open spec fn grid_nonempty(area: Rect, count: int) -> bool {
    count > 0 && area.width > 0 && area.height > 0
}

/// The `i`-th card of the grid of `count` cards in `area` with `columns`
/// columns and `rows` rows.
pub open spec fn card_rect(area: Rect, columns: int, rows: int, i: int) -> Rect {
    let col = i % columns;
    let row = i / columns;
    let x = area.x + card_offset(area.width as int, columns, col);
    let y = area.y + card_offset(area.height as int, rows, row);
    Rect {
        x: x as u16,
        y: y as u16,
        width: min_int(card_len(area.width as int, columns, col), u16::MAX - x) as u16,
        height: min_int(card_len(area.height as int, rows, row), u16::MAX - y) as u16,
    }
}

/// Whether the grid's coordinates stay within `u16`: at most `u16::MAX` rows,
/// and the last column and row start within the coordinate range.
pub open spec fn grid_fits(area: Rect, count: int, min_card_width: Option<u16>, forced_columns: Option<usize>) -> bool {
    let c = grid_columns(area, count, min_card_width, forced_columns);
    let r = rows_for(count, c);
    !grid_nonempty(area, count) || {
        &&& r <= u16::MAX
        &&& area.x + card_offset(area.width as int, c, c - 1) <= u16::MAX
        &&& area.y + card_offset(area.height as int, r, r - 1) <= u16::MAX
    }
}

proof fn lemma_rows_bounds(count: int, c: int)
    requires
        1 <= c,
        1 <= count,
    ensures
        1 <= rows_for(count, c) <= count,
        c * rows_for(count, c) >= count,
        c * rows_for(count, c) < count + c,
        c >= count ==> rows_for(count, c) == 1,
{
    assert(count == c * (count / c) + count % c) by (nonlinear_arith)
        requires
            1 <= c,
    ;
    assert(0 <= count % c < c) by (nonlinear_arith)
        requires
            1 <= c,
    ;
    assert(count / c <= count) by (nonlinear_arith)
        requires
            1 <= c,
            1 <= count,
    ;
    assert(count / c >= 0) by (nonlinear_arith)
        requires
            1 <= c,
            1 <= count,
    ;
    if count / c == 0 {
        assert(count % c == count);
    }
    if c >= count {
        if count / c >= 1 {
            assert(c * (count / c) >= c) by (nonlinear_arith)
                requires
                    count / c >= 1,
                    c >= 1,
            ;
        }
        assert(count / c == 0 || count == c);
        if count == c {
            assert(count / c == 1 && count % c == 0) by (nonlinear_arith)
                requires
                    count == c,
                    c >= 1,
            ;
        }
    }
    if count % c != 0 && count / c == count {
        assert(c * (count / c) >= count) by (nonlinear_arith)
            requires
                count / c == count,
                c >= 1,
                count >= 1,
        ;
    }
    assert(c * rows_for(count, c) == c * (count / c) + c * (if count % c != 0 {
        1int
    } else {
        0int
    })) by (nonlinear_arith);
}

/// The score of `c` columns, as `layout_score` states it (with the area not
/// negated).
fn score(area: Rect, count: usize, c: usize) -> (r: (u64, u128, u64, u64))
    requires
        1 <= c <= max_columns(count as int),
    ensures
        (r.0 as int, r.1 as int, r.2 as int, -(r.3 as int)) == layout_score(area, count as int, c as int),
{
    proof {
        lemma_rows_bounds(count as int, c as int);
    }
    let rows = count / c + if count % c != 0 {
        1
    } else {
        0
    };
    let product: u128 = (c as u128) * (rows as u128);
    proof {
        assert(c as int * rows as int <= 65535 * count as int) by (nonlinear_arith)
            requires
                c <= 65535,
                rows <= count,
                0 <= rows,
        ;
    }
    let capped: u128 = if product > usize::MAX as u128 {
        usize::MAX as u128
    } else {
        product
    };
    let empty: u128 = capped - count as u128;
    let single: u64 = if count > 2 && (c == 1 || rows == 1) {
        1
    } else {
        0
    };
    let gap_w: u64 = if 2 * (c as u64 - 1) > 65535 {
        65535
    } else {
        2 * (c as u64 - 1)
    };
    let wa: u64 = if area.width as u64 >= gap_w {
        area.width as u64 - gap_w
    } else {
        0
    };
    let w: u64 = wa / c as u64;
    let rows16: u64 = (rows % 65536) as u64;
    let h: u64 = if rows16 == 0 {
        area.height as u64
    } else {
        let rm: u64 = ((rows - 1) % 65536) as u64;
        let gap_h: u64 = if 2 * rm > 65535 {
            65535
        } else {
            2 * rm
        };
        let ha: u64 = if area.height as u64 >= gap_h {
            area.height as u64 - gap_h
        } else {
            0
        };
        assert(ha / rows16 <= ha) by (nonlinear_arith)
            requires
                rows16 >= 1,
        ;
        ha / rows16
    };
    proof {
        assert(w <= wa) by (nonlinear_arith)
            requires
                w == wa / (c as u64),
                c >= 1,
        ;
        assert(h <= 65535) by (nonlinear_arith)
            requires
                rows16 == 0 ==> h == area.height,
                rows16 != 0 ==> h <= area.height,
                area.height <= 65535,
        ;
        assert(w * h <= 65535 * 65535) by (nonlinear_arith)
            requires
                w <= 65535,
                h <= 65535,
        ;
    }
    let aspect: u64 = if w * 10 >= h * 16 {
        w * 10 - h * 16
    } else {
        h * 16 - w * 10
    };
    (single, empty, aspect, w * h)
}

/// The automatic number of columns for `item_count` cards in `area`: with a
/// minimum card width as many as fit, else the first best-scoring count.
pub fn calculate_automatic_columns(area: Rect, item_count: usize, min_card_width: Option<u16>) -> (r: usize)
    ensures
        r == auto_columns(area, item_count as int, min_card_width),
{
    match min_card_width {
        Some(m) => {
            let w: u32 = if area.width as u32 + 2 > 65535 {
                65535
            } else {
                area.width as u32 + 2
            };
            let m1: u32 = if m == 0 {
                1
            } else {
                m as u32
            };
            let d: u32 = if m1 + 2 > 65535 {
                65535
            } else {
                m1 + 2
            };
            let q = w / d;
            return if q < 1 {
                1
            } else {
                q as usize
            };
        },
        None => {},
    }
    if item_count == 0 {
        return 1;
    }
    let max_c: usize = if item_count < 65535 {
        item_count
    } else {
        65535
    };
    let mut best: usize = 1;
    let mut best_score = score(area, item_count, 1);
    let mut c: usize = 2;
    while c <= max_c
        invariant
            1 <= item_count,
            max_c == max_columns(item_count as int),
            2 <= c <= max_c + 1,
            1 <= best < c,
            (best_score.0 as int, best_score.1 as int, best_score.2 as int, -(best_score.3 as int))
                == layout_score(area, item_count as int, best as int),
            forall|d: int|
                1 <= d < c ==> !score_lt(
                    #[trigger] layout_score(area, item_count as int, d),
                    layout_score(area, item_count as int, best as int),
                ),
            forall|d: int|
                1 <= d < best ==> score_lt(
                    layout_score(area, item_count as int, best as int),
                    #[trigger] layout_score(area, item_count as int, d),
                ),
        decreases max_c + 1 - c,
    {
        let s = score(area, item_count, c);
        let better = s.0 < best_score.0 || (s.0 == best_score.0 && s.1 < best_score.1) || (s.0
            == best_score.0 && s.1 == best_score.1 && s.2 < best_score.2) || (s.0 == best_score.0
            && s.1 == best_score.1 && s.2 == best_score.2 && s.3 > best_score.3);
        if better {
            best = c;
            best_score = s;
        }
        c += 1;
    }
    proof {
        assert(is_best_columns(area, item_count as int, best as int));
        lemma_best_columns_unique(area, item_count as int, best as int);
    }
    best
}

proof fn lemma_best_columns_unique(area: Rect, count: int, c: int)
    requires
        is_best_columns(area, count, c),
    ensures
        (choose|d: int| is_best_columns(area, count, d)) == c,
{
    let d = choose|d: int| is_best_columns(area, count, d);
    assert(is_best_columns(area, count, d));
    if d < c {
        assert(score_lt(layout_score(area, count, c), layout_score(area, count, d)));
    } else if c < d {
        assert(score_lt(layout_score(area, count, d), layout_score(area, count, c)));
    }
}

proof fn lemma_offset_monotone(len: int, n: int, i: int, j: int)
    requires
        1 <= n,
        0 <= i <= j,
        0 <= len,
    ensures
        card_offset(len, n, i) <= card_offset(len, n, j),
{
    let b = usable(len, n) / n;
    assert(b >= 0) by (nonlinear_arith)
        requires
            usable(len, n) >= 0,
            n >= 1,
            b == usable(len, n) / n,
    ;
    assert(i * b <= j * b) by (nonlinear_arith)
        requires
            0 <= i <= j,
            b >= 0,
    ;
}

/// The equal share and remainder of an axis of length `len` among `n` cards.
fn axis_split(len: u16, n: usize) -> (r: (u64, u64))
    requires
        1 <= n <= u16::MAX,
    ensures
        r.0 == usable(len as int, n as int) / (n as int),
        r.1 == usable(len as int, n as int) % (n as int),
        r.0 * n + r.1 == usable(len as int, n as int),
        usable(len as int, n as int) <= u16::MAX,
        r.1 < n,
        r.1 > 0 ==> r.0 + 1 <= u16::MAX,
        r.0 <= u16::MAX,
{
    let gap: u64 = if 2 * (n as u64 - 1) > 65535 {
        65535
    } else {
        2 * (n as u64 - 1)
    };
    let rest: u64 = if len as u64 >= gap {
        len as u64 - gap
    } else {
        0
    };
    let u: u64 = if rest >= n as u64 {
        rest
    } else {
        n as u64
    };
    proof {
        assert(u as int == usable(len as int, n as int));
        assert(u == (u / (n as u64)) * (n as u64) + u % (n as u64)) by (nonlinear_arith)
            requires
                n >= 1,
        ;
        assert(u % (n as u64) < n) by (nonlinear_arith)
            requires
                n >= 1,
        ;
        assert(u / (n as u64) <= u) by (nonlinear_arith)
            requires
                n >= 1,
        ;
        if u % (n as u64) > 0 {
            assert((u / (n as u64)) + 1 <= u) by (nonlinear_arith)
                requires
                    n >= 1,
                    u % (n as u64) > 0,
                    u == (u / (n as u64)) * (n as u64) + u % (n as u64),
            ;
        }
    }
    (u / n as u64, u % n as u64)
}

/// The grid of `item_count` cards in `area`: `forced_columns` columns, or the
/// automatic count (`calculate_automatic_columns`), at most one per card and
/// at least one; cards share each axis equally after the gaps, the first
/// columns and rows one cell larger for the remainder; an empty grid for no
/// cards or an empty area.
pub fn calculate_grid(
    area: Rect,
    item_count: usize,
    min_card_width: Option<u16>,
    forced_columns: Option<usize>,
) -> (r: GridLayout)
    requires
        grid_fits(area, item_count as int, min_card_width, forced_columns),
    ensures
        !grid_nonempty(area, item_count as int) ==> r.columns == 1 && r.rows == 0 && r.cards@.len()
            == 0,
        grid_nonempty(area, item_count as int) ==> {
            let c = grid_columns(area, item_count as int, min_card_width, forced_columns);
            let rows = rows_for(item_count as int, c);
            &&& r.columns == c
            &&& r.rows == rows
            &&& r.cards@.len() == item_count
            &&& forall|i: int| 0 <= i < item_count ==> #[trigger] r.cards@[i] == card_rect(area, c, rows, i)
        },
{
    if item_count == 0 || area.width == 0 || area.height == 0 {
        return GridLayout { columns: 1, rows: 0, cards: Vec::new() };
    }
    let wanted = match forced_columns {
        Some(f) => f,
        None => calculate_automatic_columns(area, item_count, min_card_width),
    };
    let a = if wanted < item_count {
        wanted
    } else {
        item_count
    };
    let b = if a < 65535 {
        a
    } else {
        65535
    };
    let columns = if b < 1 {
        1
    } else {
        b
    };
    let rows = item_count / columns + if item_count % columns != 0 {
        1
    } else {
        0
    };
    proof {
        lemma_rows_bounds(item_count as int, columns as int);
    }
    let (base_w, extra_w) = axis_split(area.width, columns);
    let (base_h, extra_h) = axis_split(area.height, rows);
    let ghost c = columns as int;
    let ghost rr = rows as int;
    let mut cards: Vec<Rect> = Vec::new();
    let mut index: usize = 0;
    while index < item_count
        invariant
            1 <= c <= u16::MAX,
            1 <= rr <= u16::MAX,
            c == columns,
            rr == rows,
            c == grid_columns(area, item_count as int, min_card_width, forced_columns),
            rr == rows_for(item_count as int, c),
            c * rr >= item_count,
            base_w == usable(area.width as int, c) / c,
            extra_w == usable(area.width as int, c) % c,
            base_h == usable(area.height as int, rr) / rr,
            extra_h == usable(area.height as int, rr) % rr,
            base_w <= u16::MAX,
            base_h <= u16::MAX,
            base_w * c + extra_w <= u16::MAX,
            base_h * rr + extra_h <= u16::MAX,
            extra_w < c,
            extra_h < rr,
            extra_w > 0 ==> base_w + 1 <= u16::MAX,
            extra_h > 0 ==> base_h + 1 <= u16::MAX,
            area.x + card_offset(area.width as int, c, c - 1) <= u16::MAX,
            area.y + card_offset(area.height as int, rr, rr - 1) <= u16::MAX,
            index <= item_count,
            cards@.len() == index,
            forall|i: int| 0 <= i < index ==> #[trigger] cards@[i] == card_rect(area, c, rr, i),
        decreases item_count - index,
    {
        let col = index % columns;
        let row = index / columns;
        proof {
            assert(0 <= col < c) by (nonlinear_arith)
                requires
                    col == index % columns,
                    c == columns,
                    c >= 1,
            ;
            assert(0 <= row < rr) by (nonlinear_arith)
                requires
                    row == index / columns,
                    c == columns,
                    c >= 1,
                    index < item_count,
                    c * rr >= item_count,
            ;
            lemma_offset_monotone(area.width as int, c, col as int, c - 1);
            lemma_offset_monotone(area.height as int, rr, row as int, rr - 1);
            assert(col * base_w <= u16::MAX) by (nonlinear_arith)
                requires
                    col < c,
                    0 <= col,
                    base_w * c + extra_w <= u16::MAX,
                    base_w >= 0,
                    extra_w >= 0,
            ;
            assert(row * base_h <= u16::MAX) by (nonlinear_arith)
                requires
                    row < rr,
                    0 <= row,
                    base_h * rr + extra_h <= u16::MAX,
                    base_h >= 0,
                    extra_h >= 0,
            ;
        }
        let card_width: u64 = base_w + if (col as u64) < extra_w {
            1
        } else {
            0
        };
        let card_height: u64 = base_h + if (row as u64) < extra_h {
            1
        } else {
            0
        };
        let gap_x: u64 = if 2 * col as u64 > 65535 {
            65535
        } else {
            2 * col as u64
        };
        let gap_y: u64 = if 2 * row as u64 > 65535 {
            65535
        } else {
            2 * row as u64
        };
        let x_offset: u64 = col as u64 * base_w + if (col as u64) < extra_w {
            col as u64
        } else {
            extra_w
        } + gap_x;
        let y_offset: u64 = row as u64 * base_h + if (row as u64) < extra_h {
            row as u64
        } else {
            extra_h
        } + gap_y;
        let rect = Rect::new(
            area.x + x_offset as u16,
            area.y + y_offset as u16,
            card_width as u16,
            card_height as u16,
        );
        cards.push(rect);
        index += 1;
    }
    GridLayout { columns, rows, cards }
}

/// The cards of the grid of `count` cards in `area`, as `calculate_grid`
/// lays them out.
pub open spec fn grid_cards(area: Rect, count: int, min_card_width: Option<u16>, forced_columns: Option<usize>) -> Seq<Rect> {
    if grid_nonempty(area, count) {
        let c = grid_columns(area, count, min_card_width, forced_columns);
        Seq::new(count as nat, |i: int| card_rect(area, c, rows_for(count, c), i))
    } else {
        Seq::empty()
    }
}

/// Whether the grid of `item_count` cards in `area` stays within `u16`
/// coordinates (`grid_fits`), which `calculate_grid` needs.
pub fn check_grid_fits(
    area: Rect,
    item_count: usize,
    min_card_width: Option<u16>,
    forced_columns: Option<usize>,
) -> (r: bool)
    ensures
        r == grid_fits(area, item_count as int, min_card_width, forced_columns),
{
    if item_count == 0 || area.width == 0 || area.height == 0 {
        return true;
    }
    let wanted = match forced_columns {
        Some(f) => f,
        None => calculate_automatic_columns(area, item_count, min_card_width),
    };
    let a = if wanted < item_count {
        wanted
    } else {
        item_count
    };
    let b = if a < 65535 {
        a
    } else {
        65535
    };
    let columns = if b < 1 {
        1
    } else {
        b
    };
    proof {
        lemma_rows_bounds(item_count as int, columns as int);
    }
    let rows = item_count / columns + if item_count % columns != 0 {
        1
    } else {
        0
    };
    proof {
        lemma_rows_bounds(item_count as int, columns as int);
    }
    if rows > 65535 {
        return false;
    }
    let (base_w, extra_w) = axis_split(area.width, columns);
    let (base_h, extra_h) = axis_split(area.height, rows);
    let last_col = columns as u64 - 1;
    let last_row = rows as u64 - 1;
    proof {
        assert(last_col * base_w <= u16::MAX * u16::MAX) by (nonlinear_arith)
            requires
                last_col <= u16::MAX,
                base_w <= u16::MAX,
        ;
        assert(last_row * base_h <= u16::MAX * u16::MAX) by (nonlinear_arith)
            requires
                last_row <= u16::MAX,
                base_h <= u16::MAX,
        ;
    }
    let x_end: u64 = area.x as u64 + last_col * base_w + if last_col < extra_w {
        last_col
    } else {
        extra_w
    } + if 2 * last_col > 65535 {
        65535
    } else {
        2 * last_col
    };
    let y_end: u64 = area.y as u64 + last_row * base_h + if last_row < extra_h {
        last_row
    } else {
        extra_h
    } + if 2 * last_row > 65535 {
        65535
    } else {
        2 * last_row
    };
    x_end <= 65535 && y_end <= 65535
}

// ---------------------------------------------------------------------------
// Card styles
// ---------------------------------------------------------------------------

/// Colors used to highlight session cards by state.
#[derive(Debug, Clone, Copy, PartialEq, Eq, Structural)]
pub struct CardColors {
    /// The currently selected card (title + border).
    pub selected: TermColor,
    /// The session you are currently attached to (title + border).
    pub attached: TermColor,
    /// Every other card (title only; the border stays dimmed).
    pub inactive: TermColor,
}

impl Default for CardColors {
    fn default() -> (r: Self)
        ensures
            r.selected == TermColor::Yellow,
            r.attached == TermColor::Green,
            r.inactive == TermColor::White,
    {
        CardColors { selected: TermColor::Yellow, attached: TermColor::Green, inactive: TermColor::White }
    }
}

/// The title style of a card: the selected color for the selected card, the
/// attached color for the session the client is on, else the inactive color;
/// always bold.
pub fn card_title_style(selected: bool, current_attached: bool, colors: CardColors) -> (r: Style)
    ensures
        r == adding(
            with_fg(
                plain(),
                if selected {
                    colors.selected
                } else if current_attached {
                    colors.attached
                } else {
                    colors.inactive
                },
            ),
            BOLD,
        ),
{
    let c = if selected {
        colors.selected
    } else if current_attached {
        colors.attached
    } else {
        colors.inactive
    };
    Style::new().fg(c).add_modifier(BOLD)
}

/// The border style of a card: the selected color in bold for the selected
/// card, the attached color for the session the client is on, else dark gray.
pub fn card_border_style(selected: bool, current_attached: bool, colors: CardColors) -> (r: Style)
    ensures
        r == if selected {
            adding(with_fg(plain(), colors.selected), BOLD)
        } else if current_attached {
            with_fg(plain(), colors.attached)
        } else {
            with_fg(plain(), TermColor::DarkGray)
        },
{
    if selected {
        Style::new().fg(colors.selected).add_modifier(BOLD)
    } else if current_attached {
        Style::new().fg(colors.attached)
    } else {
        Style::new().fg(TermColor::DarkGray)
    }
}

/// The style of a highlighted status or shortcut: green or yellow, bold.
pub open spec fn strong(c: TermColor) -> Style {
    adding(with_fg(plain(), c), BOLD)
}

/// The style of muted text: dark gray.
pub open spec fn muted() -> Style {
    with_fg(plain(), TermColor::DarkGray)
}

/// The status shown at the bottom of a session card.
pub fn session_status_span(attached: bool) -> (r: StyledText)
    ensures
        r@ == if attached {
            styled(" attached "@, strong(TermColor::Green))
        } else {
            styled(" detached "@, muted())
        },
{
    if attached {
        StyledText {
            content: String::from_str(" attached "),
            style: Style::new().fg(TermColor::Green).add_modifier(BOLD),
        }
    } else {
        StyledText { content: String::from_str(" detached "), style: Style::new().fg(TermColor::DarkGray) }
    }
}

/// The status shown at the bottom of a window card.
pub fn window_status_span(active: bool) -> (r: StyledText)
    ensures
        r@ == if active {
            styled(" active "@, strong(TermColor::Green))
        } else {
            styled(" inactive "@, muted())
        },
{
    if active {
        StyledText {
            content: String::from_str(" active "),
            style: Style::new().fg(TermColor::Green).add_modifier(BOLD),
        }
    } else {
        StyledText { content: String::from_str(" inactive "), style: Style::new().fg(TermColor::DarkGray) }
    }
}

// ---------------------------------------------------------------------------
// Footer
// ---------------------------------------------------------------------------

/// A shortcut of the footer: yellow and bold.
pub open spec fn key_hint(t: Seq<char>) -> StyledTextView {
    styled(t, strong(TermColor::Yellow))
}

/// Explanatory text of the footer: dark gray.
pub open spec fn text_hint(t: Seq<char>) -> StyledTextView {
    styled(t, muted())
}

/// The footer's rendering of an open search query: cyan.
pub open spec fn search_hint(q: Seq<char>) -> StyledTextView {
    styled("Search: "@ + q, with_fg(plain(), TermColor::Cyan))
}

/// The hint for the zoom key, where there is one.
pub open spec fn zoom_hint(zoom_key: Seq<char>) -> Seq<StyledTextView> {
    if zoom_key.len() == 0 {
        seq![]
    } else {
        seq![key_hint(zoom_key), text_hint(" to zoom \u{b7} "@)]
    }
}

/// The footer's key hints for the picker's mode.
pub open spec fn footer_hints(is_zoomed: bool, search_query: Option<Seq<char>>, vim_keys: bool, zoom_key: Seq<char>) -> Seq<StyledTextView> {
    let zoom_label = if zoom_key.len() == 0 {
        "Esc"@
    } else {
        zoom_key + "/Esc"@
    };
    if is_zoomed {
        if vim_keys {
            seq![
                key_hint("hjkl"@),
                text_hint(" to move \u{b7} "@),
                key_hint(zoom_label),
                text_hint(" to zoom out \u{b7} "@),
                key_hint("Enter"@),
                text_hint(" to switch \u{b7} "@),
                key_hint("q"@),
                text_hint(" to quit"@),
            ]
        } else {
            seq![
                key_hint("\u{2191}/\u{2193}/\u{2190}/\u{2192}"@),
                text_hint(" to move \u{b7} "@),
                key_hint(zoom_label),
                text_hint(" to zoom out \u{b7} "@),
                key_hint("Enter"@),
                text_hint(" to switch \u{b7} "@),
                key_hint("Ctrl-C"@),
                text_hint(" to quit"@),
            ]
        }
    } else {
        match (vim_keys, search_query) {
            (true, Some(q)) => seq![
                search_hint(q),
                text_hint(" \u{b7} type to filter \u{b7} "@),
                key_hint("Backspace"@),
                text_hint(" to edit \u{b7} "@),
                key_hint("Enter"@),
                text_hint(" to switch \u{b7} "@),
                key_hint("Esc"@),
                text_hint(" for normal"@),
            ],
            (true, None) => seq![key_hint("hjkl"@), text_hint(" to move \u{b7} "@)] + zoom_hint(zoom_key)
                + seq![
                key_hint("/"@),
                text_hint(" to search \u{b7} "@),
                key_hint("Enter"@),
                text_hint(" to switch \u{b7} "@),
                key_hint("q/Esc"@),
                text_hint(" to quit"@),
            ],
            (false, Some(q)) => seq![
                search_hint(q),
                text_hint(" \u{b7} type to filter \u{b7} "@),
                key_hint("Backspace"@),
                text_hint(" to edit \u{b7} "@),
                key_hint("\u{2191}/\u{2193}/\u{2190}/\u{2192}"@),
                text_hint(" to move \u{b7} "@),
                key_hint("Enter"@),
                text_hint(" to switch \u{b7} "@),
                key_hint("Esc"@),
                text_hint(" to clear"@),
            ],
            (false, None) => seq![
                text_hint("type to filter \u{b7} "@),
                key_hint("\u{2191}/\u{2193}/\u{2190}/\u{2192}"@),
                text_hint(" to move \u{b7} "@),
            ] + zoom_hint(zoom_key) + seq![
                key_hint("Enter"@),
                text_hint(" to switch \u{b7} "@),
                key_hint("Esc/Ctrl-C"@),
                text_hint(" to quit"@),
            ],
        }
    }
}

/// A shortcut of the footer.
fn hint_key(value: String) -> (r: StyledText)
    ensures
        r@ == key_hint(value@),
{
    StyledText { content: value, style: Style::new().fg(TermColor::Yellow).add_modifier(BOLD) }
}

/// Explanatory text of the footer.
fn hint_text(value: &str) -> (r: StyledText)
    ensures
        r@ == text_hint(value@),
{
    StyledText { content: String::from_str(value), style: Style::new().fg(TermColor::DarkGray) }
}

/// Appends a shortcut.
fn push_key(line: &mut Vec<StyledText>, value: &str)
    ensures
        line_view(final(line)@) == line_view(old(line)@).push(key_hint(value@)),
{
    let ghost before = line@;
    line.push(hint_key(String::from_str(value)));
    assert(line_view(line@) =~= line_view(before).push(key_hint(value@)));
}

/// Appends explanatory text.
fn push_text(line: &mut Vec<StyledText>, value: &str)
    ensures
        line_view(final(line)@) == line_view(old(line)@).push(text_hint(value@)),
{
    let ghost before = line@;
    line.push(hint_text(value));
    assert(line_view(line@) =~= line_view(before).push(text_hint(value@)));
}

/// The footer's key hints for the picker's mode: how to move, zoom, search,
/// switch and quit, with the configured zoom key.
pub fn footer_hint_line(
    is_zoomed: bool,
    search_query: Option<&str>,
    vim_keys: bool,
    zoom_key: &str,
) -> (r: Vec<StyledText>)
    ensures
        line_view(r@) == footer_hints(
            is_zoomed,
            match search_query {
                Some(q) => Some(q@),
                None => None,
            },
            vim_keys,
            zoom_key@,
        ),
{
    let mut line: Vec<StyledText> = Vec::new();
    let ghost e: Seq<StyledTextView> = seq![];
    assert(line_view(line@) =~= e);
    let zoom_label = if zoom_key.unicode_len() == 0 {
        String::from_str("Esc")
    } else {
        String::from_str(zoom_key).concat("/Esc")
    };
    if is_zoomed {
        if vim_keys {
            push_key(&mut line, "hjkl");
            push_text(&mut line, " to move \u{b7} ");
            push_key(&mut line, zoom_label.as_str());
            push_text(&mut line, " to zoom out \u{b7} ");
            push_key(&mut line, "Enter");
            push_text(&mut line, " to switch \u{b7} ");
            push_key(&mut line, "q");
            push_text(&mut line, " to quit");
        } else {
            push_key(&mut line, "\u{2191}/\u{2193}/\u{2190}/\u{2192}");
            push_text(&mut line, " to move \u{b7} ");
            push_key(&mut line, zoom_label.as_str());
            push_text(&mut line, " to zoom out \u{b7} ");
            push_key(&mut line, "Enter");
            push_text(&mut line, " to switch \u{b7} ");
            push_key(&mut line, "Ctrl-C");
            push_text(&mut line, " to quit");
        }
        return line;
    }
    match search_query {
        Some(query) => {
            let ghost before = line@;
            line.push(
                StyledText {
                    content: String::from_str("Search: ").concat(query),
                    style: Style::new().fg(TermColor::Cyan),
                },
            );
            assert(line_view(line@) =~= line_view(before).push(search_hint(query@)));
            push_text(&mut line, " \u{b7} type to filter \u{b7} ");
            push_key(&mut line, "Backspace");
            push_text(&mut line, " to edit \u{b7} ");
            if !vim_keys {
                push_key(&mut line, "\u{2191}/\u{2193}/\u{2190}/\u{2192}");
                push_text(&mut line, " to move \u{b7} ");
            }
            push_key(&mut line, "Enter");
            push_text(&mut line, " to switch \u{b7} ");
            push_key(&mut line, "Esc");
            if vim_keys {
                push_text(&mut line, " for normal");
            } else {
                push_text(&mut line, " to clear");
            }
        },
        None => {
            if vim_keys {
                push_key(&mut line, "hjkl");
                push_text(&mut line, " to move \u{b7} ");
            } else {
                push_text(&mut line, "type to filter \u{b7} ");
                push_key(&mut line, "\u{2191}/\u{2193}/\u{2190}/\u{2192}");
                push_text(&mut line, " to move \u{b7} ");
            }
            let ghost head = line_view(line@);
            if zoom_key.unicode_len() != 0 {
                push_key(&mut line, zoom_key);
                push_text(&mut line, " to zoom \u{b7} ");
            }
            assert(line_view(line@) =~= head + zoom_hint(zoom_key@));
            let ghost mid = line_view(line@);
            if vim_keys {
                push_key(&mut line, "/");
                push_text(&mut line, " to search \u{b7} ");
                push_key(&mut line, "Enter");
                push_text(&mut line, " to switch \u{b7} ");
                push_key(&mut line, "q/Esc");
                push_text(&mut line, " to quit");
            } else {
                push_key(&mut line, "Enter");
                push_text(&mut line, " to switch \u{b7} ");
                push_key(&mut line, "Esc/Ctrl-C");
                push_text(&mut line, " to quit");
            }
        },
    }
    line
}

// ---------------------------------------------------------------------------
// Text truncation and ANSI styling
// ---------------------------------------------------------------------------

/// The first `max_width` characters of `value`.
pub fn truncate(value: &str, max_width: usize) -> (r: String)
    ensures
        r@ == value@.take(min_int(max_width as int, value@.len() as int)),
{
    let v = to_chars(value);
    let n = if max_width < v.len() {
        max_width
    } else {
        v.len()
    };
    let r = from_chars(&v, 0, n);
    assert(v@.subrange(0, n as int) =~= value@.take(n as int));
    r
}

/// A final byte of a control sequence.
pub open spec fn is_final_byte(c: char) -> bool {
    '@' <= c && c <= '~'
}

/// The index of the first final byte of `t`, or `t.len()`.
pub open spec fn final_index(t: Seq<char>) -> nat
    decreases t.len(),
{
    if t.len() == 0 {
        0
    } else if is_final_byte(t[0]) {
        0
    } else {
        1 + final_index(t.drop_first())
    }
}

/// The length of a control sequence's body `t` up to and including its final
/// byte, or all of `t` where it has none.
pub open spec fn csi_len(t: Seq<char>) -> int {
    min_int(final_index(t) + 1int, t.len() as int)
}

/// `s` starts a control sequence: ESC `[`.
pub open spec fn starts_csi(s: Seq<char>) -> bool {
    s.len() >= 2 && s[0] == '\u{1b}' && s[1] == '['
}

pub proof fn lemma_final_index(t: Seq<char>)
    ensures
        final_index(t) <= t.len(),
        final_index(t) < t.len() ==> is_final_byte(t[final_index(t) as int]),
        forall|k: int| 0 <= k < final_index(t) ==> !is_final_byte(t[k]),
    decreases t.len(),
{
    if t.len() > 0 && !is_final_byte(t[0]) {
        lemma_final_index(t.drop_first());
        assert forall|k: int| 0 <= k < final_index(t) implies !is_final_byte(t[k]) by {
            if k > 0 {
                assert(t[k] == t.drop_first()[k - 1]);
            }
        }
    }
}

proof fn lemma_final_index_scan(t: Seq<char>, k: int)
    requires
        0 <= k <= t.len(),
        forall|j: int| 0 <= j < k ==> !is_final_byte(t[j]),
        k == t.len() || is_final_byte(t[k]),
    ensures
        final_index(t) == k,
    decreases t.len(),
{
    if t.len() > 0 && !is_final_byte(t[0]) {
        assert forall|j: int| 0 <= j < k - 1 implies !is_final_byte(t.drop_first()[j]) by {
            assert(t.drop_first()[j] == t[j + 1]);
        }
        if k < t.len() {
            assert(t.drop_first()[k - 1] == t[k]);
        }
        lemma_final_index_scan(t.drop_first(), k - 1);
    }
}

/// `s` cut after `budget` visible characters: control sequences count for
/// nothing and are kept until the first visible character past the budget.
pub open spec fn truncated_ansi(s: Seq<char>, budget: nat) -> Seq<char>
    decreases s.len(),
{
    if s.len() == 0 {
        seq![]
    } else if starts_csi(s) {
        proof {
            lemma_final_index(s.skip(2));
        }
        s.take(2 + csi_len(s.skip(2))) + truncated_ansi(s.skip(2 + csi_len(s.skip(2))), budget)
    } else if budget == 0 {
        seq![]
    } else {
        seq![s[0]] + truncated_ansi(s.drop_first(), (budget - 1) as nat)
    }
}

/// The index of the first final byte in `v[lo..]`, or `v.len()`.
fn find_final_byte(v: &Vec<char>, lo: usize) -> (e: usize)
    requires
        lo <= v.len(),
    ensures
        lo <= e <= v.len(),
        e - lo == final_index(v@.skip(lo as int)),
{
    let mut e = lo;
    while e < v.len() && !('@' <= v[e] && v[e] <= '~')
        invariant
            lo <= e <= v.len(),
            forall|j: int| lo <= j < e ==> !is_final_byte(v@[j]),
        decreases v.len() - e,
    {
        e += 1;
    }
    proof {
        let t = v@.skip(lo as int);
        assert forall|j: int| 0 <= j < e - lo implies !is_final_byte(t[j]) by {
            assert(t[j] == v@[lo + j]);
        }
        if e < v.len() {
            assert(t[e - lo] == v@[e as int]);
        }
        lemma_final_index_scan(t, e - lo);
    }
    e
}

/// `value` cut after `max_width` visible characters, keeping ANSI control
/// sequences whole (they take no width); empty for a zero width.
pub fn truncate_ansi(value: &str, max_width: usize) -> (r: String)
    ensures
        r@ == if max_width == 0 {
            Seq::<char>::empty()
        } else {
            truncated_ansi(value@, max_width as nat)
        },
{
    if max_width == 0 {
        return String::new();
    }
    let v = to_chars(value);
    let n = v.len();
    let mut out = String::new();
    let mut visible: usize = 0;
    let mut i: usize = 0;
    let mut stop = false;
    assert(v@.skip(0) =~= v@);
    while i < n && !stop
        invariant
            n == v@.len(),
            v@ == value@,
            i <= n,
            visible <= max_width,
            stop ==> out@ == truncated_ansi(value@, max_width as nat),
            out@ + truncated_ansi(v@.skip(i as int), (max_width - visible) as nat) == truncated_ansi(
                value@,
                max_width as nat,
            ),
        decreases n - i, if stop {
            0int
        } else {
            1int
        },
    {
        let ghost rest = v@.skip(i as int);
        if v[i] == '\u{1b}' && i + 1 < n && v[i + 1] == '[' {
            let f = find_final_byte(&v, i + 2);
            let end = if f < n {
                f + 1
            } else {
                n
            };
            proof {
                assert(rest.skip(2) =~= v@.skip(i + 2));
                assert(csi_len(rest.skip(2)) == end - i - 2);
                assert(rest.take(2 + csi_len(rest.skip(2))) =~= v@.subrange(i as int, end as int));
                assert(rest.skip(2 + csi_len(rest.skip(2))) =~= v@.skip(end as int));
            }
            let mut j = i;
            let ghost before = out@;
            while j < end
                invariant
                    i <= j <= end <= n,
                    n == v@.len(),
                    out@ == before + v@.subrange(i as int, j as int),
                decreases end - j,
            {
                push_char(&mut out, v[j]);
                j += 1;
                assert(out@ =~= before + v@.subrange(i as int, j as int));
            }
            i = end;
        } else {
            if visible == max_width {
                stop = true;
            } else {
                proof {
                    assert(rest.drop_first() =~= v@.skip(i + 1));
                }
                push_char(&mut out, v[i]);
                visible += 1;
                i += 1;
            }
        }
    }
    proof {
        if !stop {
            assert(v@.skip(n as int) =~= Seq::<char>::empty());
        }
    }
    out
}

/// The color of an SGR color number 0 to 7, in the normal or the bright
/// palette; `Reset` for any other number.
pub open spec fn palette(index: u16, bright: bool) -> TermColor {
    if !bright {
        if index == 0 {
            TermColor::Black
        } else if index == 1 {
            TermColor::Red
        } else if index == 2 {
            TermColor::Green
        } else if index == 3 {
            TermColor::Yellow
        } else if index == 4 {
            TermColor::Blue
        } else if index == 5 {
            TermColor::Magenta
        } else if index == 6 {
            TermColor::Cyan
        } else if index == 7 {
            TermColor::Gray
        } else {
            TermColor::Reset
        }
    } else {
        if index == 0 {
            TermColor::DarkGray
        } else if index == 1 {
            TermColor::LightRed
        } else if index == 2 {
            TermColor::LightGreen
        } else if index == 3 {
            TermColor::LightYellow
        } else if index == 4 {
            TermColor::LightBlue
        } else if index == 5 {
            TermColor::LightMagenta
        } else if index == 6 {
            TermColor::LightCyan
        } else if index == 7 {
            TermColor::White
        } else {
            TermColor::Reset
        }
    }
}

/// The color of an SGR color number 0 to 7, in the normal or the bright
/// palette.
pub fn ansi_color(index: u16, bright: bool) -> (r: TermColor)
    ensures
        r == palette(index, bright),
{
    match (index, bright) {
        (0, false) => TermColor::Black,
        (1, false) => TermColor::Red,
        (2, false) => TermColor::Green,
        (3, false) => TermColor::Yellow,
        (4, false) => TermColor::Blue,
        (5, false) => TermColor::Magenta,
        (6, false) => TermColor::Cyan,
        (7, false) => TermColor::Gray,
        (0, true) => TermColor::DarkGray,
        (1, true) => TermColor::LightRed,
        (2, true) => TermColor::LightGreen,
        (3, true) => TermColor::LightYellow,
        (4, true) => TermColor::LightBlue,
        (5, true) => TermColor::LightMagenta,
        (6, true) => TermColor::LightCyan,
        (7, true) => TermColor::White,
        _ => TermColor::Reset,
    }
}

/// An SGR parameter: its decimal value where that fits a `u16`, else 0.
pub open spec fn sgr_param(p: Seq<char>) -> int {
    match decimal_value(p) {
        Some(x) => if x <= u16::MAX {
            x as int
        } else {
            0
        },
        None => 0,
    }
}

/// The parameters of an SGR sequence body: its `;`-separated numbers, or a
/// single 0 for an empty body.
pub open spec fn sgr_params(sequence: Seq<char>) -> Seq<int> {
    if sequence.len() == 0 {
        seq![0int]
    } else {
        split(sequence, ';').map_values(|p: Seq<char>| sgr_param(p))
    }
}

/// The style `style` with the color `c` as foreground (`is_fg`) or background.
pub open spec fn set_color(style: Style, is_fg: bool, c: TermColor) -> Style {
    if is_fg {
        with_fg(style, c)
    } else {
        with_bg(style, c)
    }
}

/// `style` after the SGR parameters `params[i..]`: 0 resets; 1, 3, 4 add bold,
/// italic, underline and 22, 23, 24 remove them; 30-37, 90-97 set the
/// foreground and 40-47, 100-107 the background from the palettes, 39 and 49
/// clear them; 38 and 48 set an indexed color (`5;n`) or an RGB color
/// (`2;r;g;b`) where the numbers fit a byte, skipping those parameters.
pub open spec fn sgr_apply(params: Seq<int>, i: int, style: Style) -> Style
    decreases params.len() + 5 - i,
{
    if i < 0 || i >= params.len() {
        style
    } else {
        let p = params[i];
        if p == 0 {
            sgr_apply(params, i + 1, plain())
        } else if p == 1 {
            sgr_apply(params, i + 1, adding(style, BOLD))
        } else if p == 3 {
            sgr_apply(params, i + 1, adding(style, ITALIC))
        } else if p == 4 {
            sgr_apply(params, i + 1, adding(style, UNDERLINED))
        } else if p == 22 {
            sgr_apply(params, i + 1, removing(style, BOLD))
        } else if p == 23 {
            sgr_apply(params, i + 1, removing(style, ITALIC))
        } else if p == 24 {
            sgr_apply(params, i + 1, removing(style, UNDERLINED))
        } else if 30 <= p <= 37 {
            sgr_apply(params, i + 1, with_fg(style, palette((p - 30) as u16, false)))
        } else if p == 39 {
            sgr_apply(params, i + 1, Style { fg: None, ..style })
        } else if 40 <= p <= 47 {
            sgr_apply(params, i + 1, with_bg(style, palette((p - 40) as u16, false)))
        } else if p == 49 {
            sgr_apply(params, i + 1, Style { bg: None, ..style })
        } else if 90 <= p <= 97 {
            sgr_apply(params, i + 1, with_fg(style, palette((p - 90) as u16, true)))
        } else if 100 <= p <= 107 {
            sgr_apply(params, i + 1, with_bg(style, palette((p - 100) as u16, true)))
        } else if p == 38 || p == 48 {
            let is_fg = p == 38;
            if i + 1 < params.len() && params[i + 1] == 5 {
                let next = if i + 2 < params.len() && params[i + 2] <= 255 {
                    set_color(style, is_fg, TermColor::Indexed(params[i + 2] as u8))
                } else {
                    style
                };
                sgr_apply(params, i + 3, next)
            } else if i + 1 < params.len() && params[i + 1] == 2 {
                let next = if i + 5 <= params.len() && params[i + 2] <= 255 && params[i + 3] <= 255
                    && params[i + 4] <= 255 {
                    set_color(
                        style,
                        is_fg,
                        TermColor::Rgb(params[i + 2] as u8, params[i + 3] as u8, params[i + 4] as u8),
                    )
                } else {
                    style
                };
                sgr_apply(params, i + 5, next)
            } else {
                sgr_apply(params, i + 1, style)
            }
        } else {
            sgr_apply(params, i + 1, style)
        }
    }
}

/// The numbers of an SGR sequence body.
fn sgr_numbers(v: &Vec<char>, lo: usize, hi: usize) -> (r: Vec<u16>)
    requires
        lo <= hi <= v.len(),
    ensures
        r@.len() == sgr_params(v@.subrange(lo as int, hi as int)).len(),
        forall|k: int| 0 <= k < r@.len() ==> #[trigger] r@[k] as int == sgr_params(
            v@.subrange(lo as int, hi as int),
        )[k],
{
    let mut r: Vec<u16> = Vec::new();
    if lo == hi {
        r.push(0);
        return r;
    }
    let ghost body = v@.subrange(lo as int, hi as int);
    let parts = split_all_ranges(v, lo, hi, ';');
    let mut k: usize = 0;
    while k < parts.len()
        invariant
            lo < hi <= v.len(),
            body == v@.subrange(lo as int, hi as int),
            parts@.len() == split(body, ';').len(),
            forall|j: int|
                0 <= j < parts@.len() ==> {
                    &&& lo <= (#[trigger] parts@[j]).0 <= parts@[j].1 <= hi
                    &&& split(body, ';')[j] == v@.subrange(
                        parts@[j].0 as int,
                        parts@[j].1 as int,
                    )
                },
            k <= parts@.len(),
            r@.len() == k,
            forall|j: int| 0 <= j < k ==> #[trigger] r@[j] as int == sgr_params(body)[j],
        decreases parts@.len() - k,
    {
        let (a, b) = parts[k];
        let value = match parse_decimal(v, a, b, 65535) {
            Some(x) => x as u16,
            None => 0,
        };
        r.push(value);
        k += 1;
    }
    r
}

/// Applies the SGR sequence body `sequence` (the text between ESC `[` and
/// `m`) to `style`.
pub fn apply_sgr(sequence: &str, style: &mut Style)
    ensures
        *final(style) == sgr_apply(sgr_params(sequence@), 0, *old(style)),
{
    let v = to_chars(sequence);
    let params = sgr_numbers(&v, 0, v.len());
    assert(v@.subrange(0, v@.len() as int) =~= sequence@);
    let ghost ps = sgr_params(sequence@);
    let n = params.len();
    let mut index: usize = 0;
    let ghost start = *style;
    while index < n
        invariant
            n == params@.len(),
            n == ps.len(),
            forall|k: int| 0 <= k < n ==> #[trigger] params@[k] as int == ps[k],
            index <= n,
            sgr_apply(ps, 0, start) == sgr_apply(ps, index as int, *style),
        decreases n - index,
    {
        let p = params[index];
        let ghost before = *style;
        let ghost i0 = index as int;
        assert(ps[i0] == p as int);
        let mut step: usize = 1;
        if p == 0 {
            *style = Style::new();
        } else if p == 1 {
            *style = style.add_modifier(BOLD);
        } else if p == 3 {
            *style = style.add_modifier(ITALIC);
        } else if p == 4 {
            *style = style.add_modifier(UNDERLINED);
        } else if p == 22 {
            *style = style.remove_modifier(BOLD);
        } else if p == 23 {
            *style = style.remove_modifier(ITALIC);
        } else if p == 24 {
            *style = style.remove_modifier(UNDERLINED);
        } else if 30 <= p && p <= 37 {
            *style = style.fg(ansi_color(p - 30, false));
        } else if p == 39 {
            style.fg = None;
        } else if 40 <= p && p <= 47 {
            *style = style.bg(ansi_color(p - 40, false));
        } else if p == 49 {
            style.bg = None;
        } else if 90 <= p && p <= 97 {
            *style = style.fg(ansi_color(p - 90, true));
        } else if 100 <= p && p <= 107 {
            *style = style.bg(ansi_color(p - 100, true));
        } else if p == 38 || p == 48 {
            let is_fg = p == 38;
            if n - index > 1 && params[index + 1] == 5 {
                if n - index > 2 && params[index + 2] <= 255 {
                    let c = TermColor::Indexed(params[index + 2] as u8);
                    *style = if is_fg {
                        style.fg(c)
                    } else {
                        style.bg(c)
                    };
                }
                step = 3;
            } else if n - index > 1 && params[index + 1] == 2 {
                if n - index >= 5 && params[index + 2] <= 255 && params[index + 3] <= 255
                    && params[index + 4] <= 255 {
                    let c = TermColor::Rgb(
                        params[index + 2] as u8,
                        params[index + 3] as u8,
                        params[index + 4] as u8,
                    );
                    *style = if is_fg {
                        style.fg(c)
                    } else {
                        style.bg(c)
                    };
                }
                step = 5;
            }
        }
        assert(sgr_apply(ps, i0, before) == sgr_apply(ps, i0 + step, *style));
        assert(i0 + step >= n ==> sgr_apply(ps, i0 + step, *style) == sgr_apply(ps, n as int, *style));
        index = if n - index > step {
            index + step
        } else {
            n
        };
    }
}

/// The buffered text as a styled piece, where there is any.
pub open spec fn flushed(buffer: Seq<char>, style: Style) -> Seq<StyledTextView> {
    if buffer.len() > 0 {
        seq![styled(buffer, style)]
    } else {
        seq![]
    }
}

/// The styled pieces of `s`, given the text `buffer` read so far in `style`:
/// SGR sequences (ESC `[` ... `m`) end the current piece and change the style,
/// other control sequences are dropped, and all other characters are text.
pub open spec fn ansi_spans(s: Seq<char>, buffer: Seq<char>, style: Style) -> Seq<StyledTextView>
    decreases s.len(),
{
    if s.len() == 0 {
        flushed(buffer, style)
    } else if starts_csi(s) {
        let t = s.skip(2);
        let k = final_index(t);
        proof {
            lemma_final_index(t);
        }
        if k < t.len() && t[k as int] == 'm' {
            flushed(buffer, style) + ansi_spans(
                t.skip(csi_len(t)),
                seq![],
                sgr_apply(sgr_params(t.take(k as int)), 0, style),
            )
        } else {
            ansi_spans(t.skip(csi_len(t)), buffer, style)
        }
    } else {
        ansi_spans(s.drop_first(), buffer.push(s[0]), style)
    }
}

/// Ends the current piece of text, where there is any.
fn flush_span(spans: &mut Vec<StyledText>, buffer: &mut String, style: Style)
    ensures
        line_view(final(spans)@) == line_view(old(spans)@) + flushed(old(buffer)@, style),
        final(buffer)@ == Seq::<char>::empty(),
{
    let ghost before = spans@;
    if buffer.unicode_len() > 0 {
        let mut content = String::new();
        std::mem::swap(&mut content, buffer);
        spans.push(StyledText { content, style });
        assert(line_view(spans@) =~= line_view(before) + flushed(old(buffer)@, style));
    } else {
        assert(line_view(spans@) =~= line_view(before) + flushed(old(buffer)@, style));
        *buffer = String::new();
    }
}

/// The styled pieces of a line holding ANSI escape sequences: SGR sequences
/// change the style, other control sequences are dropped.
pub fn ansi_to_line(value: &str) -> (r: Vec<StyledText>)
    ensures
        line_view(r@) == ansi_spans(value@, seq![], plain()),
{
    let v = to_chars(value);
    let n = v.len();
    let mut spans: Vec<StyledText> = Vec::new();
    let mut buffer = String::new();
    let mut style = Style::new();
    let mut i: usize = 0;
    assert(v@.skip(0) =~= v@);
    assert(line_view(spans@) =~= Seq::<StyledTextView>::empty());
    while i < n
        invariant
            n == v@.len(),
            v@ == value@,
            i <= n,
            line_view(spans@) + ansi_spans(v@.skip(i as int), buffer@, style) == ansi_spans(
                value@,
                seq![],
                plain(),
            ),
        decreases n - i,
    {
        let ghost rest = v@.skip(i as int);
        if v[i] == '\u{1b}' && i + 1 < n && v[i + 1] == '[' {
            let f = find_final_byte(&v, i + 2);
            let end = if f < n {
                f + 1
            } else {
                n
            };
            let ghost t = rest.skip(2);
            proof {
                assert(t =~= v@.skip(i + 2));
                assert(csi_len(t) == end - i - 2);
                assert(t.skip(csi_len(t)) =~= v@.skip(end as int));
                if f < n {
                    assert(t[f - i - 2] == v@[f as int]);
                }
            }
            if f < n && v[f] == 'm' {
                let sequence = from_chars(&v, i + 2, f);
                assert(sequence@ =~= t.take(f - i - 2));
                let ghost spans_before = line_view(spans@);
                let ghost buffer_before = buffer@;
                let ghost style_before = style;
                flush_span(&mut spans, &mut buffer, style);
                apply_sgr(sequence.as_str(), &mut style);
                proof {
                    assert(final_index(t) == f - i - 2);
                    assert(buffer@ =~= Seq::<char>::empty());
                    assert(ansi_spans(rest, buffer_before, style_before) == flushed(
                        buffer_before,
                        style_before,
                    ) + ansi_spans(t.skip(csi_len(t)), seq![], style));
                    assert(line_view(spans@) + ansi_spans(v@.skip(end as int), buffer@, style)
                        =~= spans_before + ansi_spans(rest, buffer_before, style_before));
                }
            }
            i = end;
        } else {
            proof {
                assert(rest.drop_first() =~= v@.skip(i + 1));
            }
            push_char(&mut buffer, v[i]);
            i += 1;
        }
    }
    assert(v@.skip(n as int) =~= Seq::<char>::empty());
    flush_span(&mut spans, &mut buffer, style);
    assert(line_view(spans@) =~= ansi_spans(value@, seq![], plain()));
    spans
}

} // verus!
