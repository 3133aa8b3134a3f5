//! Month-grid layout of the calendar view and the index that maps screen positions
//! back to the month shown there.
use crate::date::CalendarDate;
use vstd::arithmetic::div_mod::*;
use vstd::arithmetic::mul::*;
use vstd::prelude::*;

verus! {

/// A screen rectangle in terminal cells.
#[derive(Clone, Copy, Debug, PartialEq, Eq, Hash)]
pub struct Rect {
    pub x: u16,
    pub y: u16,
    pub width: u16,
    pub height: u16,
}

impl Rect {
    /// The rectangle ends inside the coordinate space.
    pub open spec fn wf(self) -> bool {
        &&& self.x + self.width <= u16::MAX
        &&& self.y + self.height <= u16::MAX
    }

    pub open spec fn contains(self, px: int, py: int) -> bool {
        &&& self.x <= px < self.x + self.width
        &&& self.y <= py < self.y + self.height
    }

    /// `self` lies inside `outer`.
    pub open spec fn within(self, outer: Rect) -> bool {
        &&& outer.x <= self.x
        &&& self.x + self.width <= outer.x + outer.width
        &&& outer.y <= self.y
        &&& self.y + self.height <= outer.y + outer.height
    }
}

/// A month, shown from its first day: `month` counts from 1 (January).
#[derive(Clone, Copy, Debug, PartialEq, Eq, Hash)]
pub struct MonthAnchor {
    pub year: i32,
    pub month: u8,
}

impl MonthAnchor {
    pub open spec fn wf(self) -> bool {
        1 <= self.month <= 12
    }

    /// Months counted from January of year 0.
    pub open spec fn number(self) -> int {
        self.year * 12 + (self.month - 1)
    }

    /// The first day of the month, when the month lies in the supported years.
    pub fn first_day(&self) -> (r: Option<CalendarDate>)
        ensures
            r == (if (CalendarDate { year: self.year, month: self.month, day: 1 }).wf() {
                Some(CalendarDate { year: self.year, month: self.month, day: 1 })
            } else {
                None
            }),
    {
        CalendarDate::new(self.year, self.month, 1)
    }
}

/// The month with number `n` (see `MonthAnchor::number`).
pub open spec fn anchor_of_number(n: int) -> MonthAnchor {
    MonthAnchor { year: (n / 12) as i32, month: (n % 12 + 1) as u8 }
}

/// The month after `a`; December is followed by January of the next year.
pub open spec fn following_month(a: MonthAnchor) -> MonthAnchor {
    if a.month == 12 {
        MonthAnchor { year: (a.year + 1) as i32, month: 1 }
    } else {
        MonthAnchor { year: a.year, month: (a.month + 1) as u8 }
    }
}

/// Chronological order of months.
pub open spec fn month_before(a: MonthAnchor, b: MonthAnchor) -> bool {
    a.year < b.year || (a.year == b.year && a.month < b.month)
}

/// Advances to the first of the next month.
pub fn next_month(a: MonthAnchor) -> (r: MonthAnchor)
    requires
        a.wf(),
        a.year < i32::MAX,
    ensures
        r == following_month(a),
        r.wf(),
{
    if a.month == 12 {
        MonthAnchor { year: a.year + 1, month: 1 }
    } else {
        MonthAnchor { year: a.year, month: a.month + 1 }
    }
}

/// One month of the grid and the screen area it is drawn in.
#[derive(Clone, Copy, Debug, PartialEq, Eq)]
pub struct MonthCell {
    pub anchor: MonthAnchor,
    pub area: Rect,
}

/// Offset of band `i` when `total` is cut into `n` bands.
pub open spec fn band_start(total: int, n: int, i: int) -> int {
    i * (total / n)
}

/// Length of band `i`: all bands get `total / n`, the last one also takes the remainder.
pub open spec fn band_len(total: int, n: int, i: int) -> int {
    if i == n - 1 {
        total - (n - 1) * (total / n)
    } else {
        total / n
    }
}

/// The band of a `total`-long span that holds offset `p`.
pub open spec fn band_of(total: int, n: int, p: int) -> int {
    if total / n == 0 || p / (total / n) >= n - 1 {
        n - 1
    } else {
        p / (total / n)
    }
}

/// The area of row `r`, column `c` when `v` is cut into `rows` x `cols` cells.
pub open spec fn cell_rect(v: Rect, rows: int, cols: int, r: int, c: int) -> Rect {
    Rect {
        x: (v.x + band_start(v.width as int, cols, c)) as u16,
        y: (v.y + band_start(v.height as int, rows, r)) as u16,
        width: band_len(v.width as int, cols, c) as u16,
        height: band_len(v.height as int, rows, r) as u16,
    }
}

/// The `rows * cols` cells of the grid in row-major order; cell `k` shows the `k`-th
/// month from the month of `start`.
pub open spec fn grid(v: Rect, start: CalendarDate, rows: int, cols: int) -> Seq<MonthCell> {
    Seq::new(
        (rows * cols) as nat,
        |k: int|
            MonthCell {
                anchor: anchor_of_number(start.year * 12 + (start.month - 1) + k),
                area: cell_rect(v, rows, cols, k / cols, k % cols),
            },
    )
}

proof fn lemma_band(total: int, n: int, i: int)
    requires
        0 <= total,
        0 < n,
        0 <= i < n,
    ensures
        0 <= band_start(total, n, i),
        0 <= band_len(total, n, i),
        band_start(total, n, i) + band_len(total, n, i) <= total,
        i < n - 1 ==> band_start(total, n, i) + band_len(total, n, i) == band_start(
            total,
            n,
            i + 1,
        ),
        i == n - 1 ==> band_start(total, n, i) + band_len(total, n, i) == total,
{
    let s = total / n;
    lemma_div_pos_is_pos(total, n);
    lemma_fundamental_div_mod(total, n);
    lemma_mod_pos_bound(total, n);
    assert(n * s <= total);
    assert(0 <= i * s && (i + 1) * s <= n * s && (n - 1) * s <= n * s && i * s + s == (i + 1)
        * s) by (nonlinear_arith)
        requires
            0 <= i < n,
            0 <= s,
    ;
}

/// Bands that come earlier end before later ones start.
proof fn lemma_bands_ordered(total: int, n: int, i: int, j: int)
    requires
        0 <= total,
        0 < n,
        0 <= i < j < n,
    ensures
        band_start(total, n, i) + band_len(total, n, i) <= band_start(total, n, j),
{
    let s = total / n;
    lemma_div_pos_is_pos(total, n);
    lemma_mul_inequality(i + 1, j, s);
    lemma_mul_is_distributive_add_other_way(s, i, 1);
}

/// Every offset of the span falls in the band `band_of` names.
proof fn lemma_band_of(total: int, n: int, p: int)
    requires
        0 <= p < total,
        0 < n,
    ensures
        0 <= band_of(total, n, p) < n,
        band_start(total, n, band_of(total, n, p)) <= p < band_start(total, n, band_of(total, n, p))
            + band_len(total, n, band_of(total, n, p)),
{
    let s = total / n;
    lemma_div_pos_is_pos(total, n);
    lemma_band(total, n, n - 1);
    if s == 0 {
        assert(band_start(total, n, n - 1) == 0) by (nonlinear_arith)
            requires
                s == 0,
                band_start(total, n, n - 1) == (n - 1) * s,
        ;
    } else {
        let q = p / s;
        lemma_div_pos_is_pos(p, s);
        lemma_fundamental_div_mod(p, s);
        lemma_mod_pos_bound(p, s);
        if q >= n - 1 {
            lemma_mul_inequality(n - 1, q, s);
            lemma_mul_is_commutative(q, s);
        } else {
            lemma_mul_is_commutative(q, s);
            lemma_mul_is_distributive_add_other_way(s, q, 1);
        }
    }
}

/// The grid tiles the viewport: it has `rows * cols` cells, each cell lies inside the
/// viewport, every point of the viewport lies in some cell, and in only one.
pub proof fn lemma_grid_tiles(v: Rect, start: CalendarDate, rows: int, cols: int)
    requires
        v.wf(),
        1 <= rows <= u16::MAX,
        1 <= cols <= u16::MAX,
    ensures
        grid(v, start, rows, cols).len() == rows * cols,
        forall|k: int|
            0 <= k < rows * cols ==> #[trigger] grid(v, start, rows, cols)[k].area.within(v),
        forall|px: int, py: int|
            v.contains(px, py) ==> exists|k: int|
                0 <= k < rows * cols && #[trigger] grid(v, start, rows, cols)[k].area.contains(
                    px,
                    py,
                ),
        forall|px: int, py: int, k1: int, k2: int|
            0 <= k1 < rows * cols && 0 <= k2 < rows * cols && #[trigger] grid(
                v,
                start,
                rows,
                cols,
            )[k1].area.contains(px, py) && #[trigger] grid(v, start, rows, cols)[k2].area.contains(
                px,
                py,
            ) ==> k1 == k2,
{
    let g = grid(v, start, rows, cols);
    lemma_mul_strictly_positive(rows, cols);
    assert forall|k: int| 0 <= k < rows * cols implies #[trigger] g[k].area.within(v) by {
        lemma_cell_coords(rows, cols, k);
        lemma_band(v.width as int, cols, k % cols);
        lemma_band(v.height as int, rows, k / cols);
    }
    assert forall|px: int, py: int| v.contains(px, py) implies exists|k: int|
        0 <= k < rows * cols && #[trigger] g[k].area.contains(px, py) by {
        let c = band_of(v.width as int, cols, px - v.x);
        let r = band_of(v.height as int, rows, py - v.y);
        lemma_band_of(v.width as int, cols, px - v.x);
        lemma_band_of(v.height as int, rows, py - v.y);
        lemma_band(v.width as int, cols, c);
        lemma_band(v.height as int, rows, r);
        let k = r * cols + c;
        lemma_fundamental_div_mod_converse(k, cols, r, c);
        lemma_mul_inequality(r, rows - 1, cols);
        lemma_mul_is_distributive_sub_other_way(cols, rows, 1);
        assert(g[k].area.contains(px, py));
    }
    assert forall|px: int, py: int, k1: int, k2: int|
        0 <= k1 < rows * cols && 0 <= k2 < rows * cols && #[trigger] g[k1].area.contains(px, py)
            && #[trigger] g[k2].area.contains(px, py) implies k1 == k2 by {
        lemma_cell_coords(rows, cols, k1);
        lemma_cell_coords(rows, cols, k2);
        let (r1, c1, r2, c2) = (k1 / cols, k1 % cols, k2 / cols, k2 % cols);
        lemma_band(v.width as int, cols, c1);
        lemma_band(v.width as int, cols, c2);
        lemma_band(v.height as int, rows, r1);
        lemma_band(v.height as int, rows, r2);
        if c1 < c2 {
            lemma_bands_ordered(v.width as int, cols, c1, c2);
        } else if c2 < c1 {
            lemma_bands_ordered(v.width as int, cols, c2, c1);
        } else if r1 < r2 {
            lemma_bands_ordered(v.height as int, rows, r1, r2);
        } else if r2 < r1 {
            lemma_bands_ordered(v.height as int, rows, r2, r1);
        } else {
            lemma_fundamental_div_mod(k1, cols);
            lemma_fundamental_div_mod(k2, cols);
        }
    }
}

/// Row and column of cell `k` are in range.
proof fn lemma_cell_coords(rows: int, cols: int, k: int)
    requires
        1 <= rows,
        1 <= cols,
        0 <= k < rows * cols,
    ensures
        0 <= k / cols < rows,
        0 <= k % cols < cols,
{
    lemma_div_pos_is_pos(k, cols);
    lemma_mod_pos_bound(k, cols);
    lemma_div_by_multiple_is_strongly_ordered(k, rows * cols, rows, cols);
    lemma_div_by_multiple(rows, cols);
}

/// Largest month number a grid can reach from a supported start.
pub open spec fn last_month_number() -> int {
    (9999 * 12 + 11 + 65535 * 65535) as int
}

/// Month numbers map to well-formed months, one after another.
proof fn lemma_anchor_step(n: int)
    requires
        -9999 * 12 <= n <= last_month_number(),
    ensures
        anchor_of_number(n).wf(),
        anchor_of_number(n).number() == n,
        anchor_of_number(n).year < i32::MAX,
        following_month(anchor_of_number(n)) == anchor_of_number(n + 1),
{
    let q = n / 12;
    let m = n % 12;
    lemma_fundamental_div_mod(n, 12);
    if m == 11 {
        lemma_fundamental_div_mod_converse(n + 1, 12, q + 1, 0);
    } else {
        lemma_fundamental_div_mod_converse(n + 1, 12, q, m + 1);
    }
}

/// Month numbers order months chronologically.
proof fn lemma_number_order(a: MonthAnchor, b: MonthAnchor)
    requires
        a.wf(),
        b.wf(),
    ensures
        month_before(a, b) <==> a.number() < b.number(),
{
}

/// Cells of a grid are numbered row by row.
proof fn lemma_row_major(rows: int, cols: int, r: int, c: int)
    requires
        1 <= cols,
        0 <= r < rows,
        0 <= c < cols,
    ensures
        (r * cols + c) / cols == r,
        (r * cols + c) % cols == c,
        r * cols + c < rows * cols,
        (r + 1) * cols == r * cols + cols,
{
    lemma_fundamental_div_mod_converse(r * cols + c, cols, r, c);
    lemma_mul_inequality(r + 1, rows, cols);
    lemma_mul_is_distributive_add_other_way(cols, r, 1);
}

/// Cuts `viewport` into `rows` bands of equal height and each band into `cols` cells of
/// equal width (the last row and column take the remainder), and gives the cells, in
/// row-major order, consecutive months starting from the month of `start`.
pub fn layout(viewport: Rect, start: CalendarDate, rows: u16, cols: u16) -> (cells: Vec<MonthCell>)
    requires
        viewport.wf(),
        start.wf(),
        1 <= rows,
        1 <= cols,
    ensures
        cells@ == grid(viewport, start, rows as int, cols as int),
{
    let ghost g = grid(viewport, start, rows as int, cols as int);
    let ghost s0 = start.year * 12 + (start.month - 1);
    let row_h: u16 = viewport.height / rows;
    let col_w: u16 = viewport.width / cols;
    let mut cells: Vec<MonthCell> = Vec::new();
    let mut anchor = MonthAnchor { year: start.year, month: start.month };
    proof {
        lemma_mul_upper_bound(rows as int, 65535, cols as int, 65535);
        lemma_fundamental_div_mod_converse(s0, 12, start.year as int, start.month - 1);
    }
    let mut r: u16 = 0;
    while r < rows
        invariant
            r <= rows,
            rows * cols <= 65535 * 65535,
            row_h == viewport.height / rows,
            col_w == viewport.width / cols,
            viewport.wf(),
            1 <= rows,
            1 <= cols,
            -9999 * 12 <= s0 <= 9999 * 12 + 11,
            s0 == start.year * 12 + (start.month - 1),
            g == grid(viewport, start, rows as int, cols as int),
            cells.len() == r * cols,
            forall|k: int| 0 <= k < cells.len() ==> cells@[k] == g[k],
            anchor == anchor_of_number(s0 + cells.len()),
        decreases rows - r,
    {
        proof {
            lemma_band(viewport.height as int, rows as int, r as int);
            lemma_band(viewport.height as int, rows as int, rows - 1);
        }
        let y: u16 = viewport.y + r * row_h;
        let h: u16 = if r == rows - 1 {
            viewport.height - (rows - 1) * row_h
        } else {
            row_h
        };
        let mut c: u16 = 0;
        while c < cols
            invariant
                r < rows,
                c <= cols,
                rows * cols <= 65535 * 65535,
                col_w == viewport.width / cols,
                viewport.wf(),
                1 <= rows,
                1 <= cols,
                -9999 * 12 <= s0 <= 9999 * 12 + 11,
                s0 == start.year * 12 + (start.month - 1),
                g == grid(viewport, start, rows as int, cols as int),
                y == viewport.y + band_start(viewport.height as int, rows as int, r as int),
                h == band_len(viewport.height as int, rows as int, r as int),
                cells.len() == r * cols + c,
                forall|k: int| 0 <= k < cells.len() ==> cells@[k] == g[k],
                anchor == anchor_of_number(s0 + cells.len()),
            decreases cols - c,
        {
            proof {
                lemma_band(viewport.width as int, cols as int, c as int);
                lemma_band(viewport.width as int, cols as int, cols - 1);
                lemma_row_major(rows as int, cols as int, r as int, c as int);
                lemma_anchor_step(s0 + cells.len());
            }
            let x: u16 = viewport.x + c * col_w;
            let w: u16 = if c == cols - 1 {
                viewport.width - (cols - 1) * col_w
            } else {
                col_w
            };
            let ghost k = cells.len() as int;
            cells.push(MonthCell { anchor, area: Rect { x, y, width: w, height: h } });
            assert(cells@[k] == g[k]);
            anchor = next_month(anchor);
            c = c + 1;
        }
        proof {
            lemma_row_major(rows as int, cols as int, r as int, 0);
        }
        r = r + 1;
    }
    assert(cells@ =~= g);
    cells
}

/// The grid's months follow one another: each cell's month is the month after the
/// previous cell's (December is followed by January of the next year), so they increase
/// strictly in row-major order.
pub proof fn lemma_grid_months_increase(
    v: Rect,
    start: CalendarDate,
    rows: int,
    cols: int,
    i: int,
    j: int,
)
    requires
        start.wf(),
        1 <= rows <= u16::MAX,
        1 <= cols <= u16::MAX,
        0 <= i < j < rows * cols,
    ensures
        grid(v, start, rows, cols)[i + 1].anchor == following_month(
            grid(v, start, rows, cols)[i].anchor,
        ),
        month_before(grid(v, start, rows, cols)[i].anchor, grid(v, start, rows, cols)[j].anchor),
{
    let s0 = start.year * 12 + (start.month - 1);
    lemma_mul_upper_bound(rows, 65535, cols, 65535);
    lemma_anchor_step(s0 + i);
    lemma_anchor_step(s0 + j);
    lemma_number_order(anchor_of_number(s0 + i), anchor_of_number(s0 + j));
}

/// Where a displayed month sits on screen: the origin of its cell.
#[derive(Clone, Copy, Debug, PartialEq, Eq)]
pub struct DatePositionEntry {
    pub anchor: MonthAnchor,
    pub x: u16,
    pub y: u16,
}

/// Half-open distance, in cells on each axis, within which a pointer hits an entry.
pub const TOLERANCE: u16 = 3;

/// The index entry of one grid cell.
pub open spec fn entry_of(c: MonthCell) -> DatePositionEntry {
    DatePositionEntry { anchor: c.anchor, x: c.area.x, y: c.area.y }
}

/// `(x, y)` lies less than `TOLERANCE` away from the entry on both axes.
pub open spec fn near(e: DatePositionEntry, x: int, y: int) -> bool {
    &&& e.x - TOLERANCE < x < e.x + TOLERANCE
    &&& e.y - TOLERANCE < y < e.y + TOLERANCE
}

/// Position of the first entry from `i` on that is near `(x, y)`.
pub open spec fn first_near_from(idx: Seq<DatePositionEntry>, x: int, y: int, i: int) -> Option<
    int,
>
    decreases idx.len() - i,
{
    if i < 0 || i >= idx.len() {
        None
    } else if near(idx[i], x, y) {
        Some(i)
    } else {
        first_near_from(idx, x, y, i + 1)
    }
}

/// The month a pointer at `(x, y)` selects: that of the first entry near it.
pub open spec fn resolved(idx: Seq<DatePositionEntry>, x: int, y: int) -> Option<MonthAnchor> {
    match first_near_from(idx, x, y, 0) {
        Some(k) => Some(idx[k].anchor),
        None => None,
    }
}

/// One index entry per cell, in the order of the cells.
pub fn index(cells: &Vec<MonthCell>) -> (r: Vec<DatePositionEntry>)
    ensures
        r@ == cells@.map_values(|c: MonthCell| entry_of(c)),
{
    let mut r: Vec<DatePositionEntry> = Vec::new();
    let mut i: usize = 0;
    while i < cells.len()
        invariant
            i <= cells.len(),
            r@ == cells@.subrange(0, i as int).map_values(|c: MonthCell| entry_of(c)),
        decreases cells.len() - i,
    {
        let c = cells[i];
        r.push(DatePositionEntry { anchor: c.anchor, x: c.area.x, y: c.area.y });
        i = i + 1;
        assert(cells@.subrange(0, i as int) =~= cells@.subrange(0, i - 1).push(c));
        assert(r@ =~= cells@.subrange(0, i as int).map_values(|c: MonthCell| entry_of(c)));
    }
    assert(cells@.subrange(0, i as int) =~= cells@);
    r
}

/// The month whose entry is the first, in index order, within tolerance of `(x, y)`;
/// `None` when no entry is.
pub fn resolve(idx: &Vec<DatePositionEntry>, x: u16, y: u16) -> (r: Option<MonthAnchor>)
    ensures
        r == resolved(idx@, x as int, y as int),
{
    let mut i: usize = 0;
    while i < idx.len()
        invariant
            i <= idx.len(),
            first_near_from(idx@, x as int, y as int, 0) == first_near_from(
                idx@,
                x as int,
                y as int,
                i as int,
            ),
        decreases idx.len() - i,
    {
        let e = idx[i];
        let dx: u16 = if e.x >= x {
            e.x - x
        } else {
            x - e.x
        };
        let dy: u16 = if e.y >= y {
            e.y - y
        } else {
            y - e.y
        };
        if dx < TOLERANCE && dy < TOLERANCE {
            return Some(e.anchor);
        }
        i = i + 1;
    }
    None
}

/// A pointer near several entries resolves to the earliest of them: given two entries in
/// tolerance, the one returned comes no later than the first of the two, and no entry
/// before it is in tolerance.
pub proof fn lemma_resolve_prefers_earlier(
    idx: Seq<DatePositionEntry>,
    x: int,
    y: int,
    i: int,
    j: int,
)
    requires
        0 <= i < j < idx.len(),
        near(idx[i], x, y),
        near(idx[j], x, y),
    ensures
        first_near_from(idx, x, y, 0) matches Some(k) && 0 <= k <= i && near(idx[k], x, y) && forall|
            m: int,
        |
            0 <= m < k ==> !near(#[trigger] idx[m], x, y),
        resolved(idx, x, y) == Some(idx[first_near_from(idx, x, y, 0)->0].anchor),
{
    lemma_first_near_from(idx, x, y, 0, i);
}

proof fn lemma_first_near_from(idx: Seq<DatePositionEntry>, x: int, y: int, s: int, i: int)
    requires
        0 <= s <= i < idx.len(),
        near(idx[i], x, y),
    ensures
        first_near_from(idx, x, y, s) matches Some(k) && s <= k <= i && near(idx[k], x, y)
            && forall|m: int| s <= m < k ==> !near(#[trigger] idx[m], x, y),
    decreases i - s,
{
    if !near(idx[s], x, y) {
        lemma_first_near_from(idx, x, y, s + 1, i);
    }
}

/// Space kept free around each month, as a share of the frame with bounds in cells.
#[derive(Clone, Copy, Debug, PartialEq, Eq)]
pub struct Padding {
    pub horizontal_percent: u16,
    pub vertical_percent: u16,
    pub min_horizontal: u16,
    pub max_horizontal: u16,
    pub min_vertical: u16,
    pub max_vertical: u16,
}

/// `v` raised to `lo`, then capped at `hi`.
pub open spec fn clamp(v: int, lo: int, hi: int) -> int {
    let raised = if v < lo {
        lo
    } else {
        v
    };
    if raised > hi {
        hi
    } else {
        raised
    }
}

/// The inset on each side for a frame `extent` long: half of `percent` of it, clamped.
pub open spec fn inset(extent: int, percent: int, lo: int, hi: int) -> int {
    clamp(extent * percent / 100 / 2, lo, hi)
}

impl Padding {
    /// 35% of the width and 13% of the height, split over both sides, with at least 2
    /// and at most 10 cells across and at most 5 down.
    pub fn standard() -> (p: Padding)
        ensures
            p == (Padding {
                horizontal_percent: 35,
                vertical_percent: 13,
                min_horizontal: 2,
                max_horizontal: 10,
                min_vertical: 0,
                max_vertical: 5,
            }),
    {
        Padding {
            horizontal_percent: 35,
            vertical_percent: 13,
            min_horizontal: 2,
            max_horizontal: 10,
            min_vertical: 0,
            max_vertical: 5,
        }
    }

    /// Horizontal and vertical inset for a frame of the given size.
    pub fn insets(&self, frame: Rect) -> (r: (u16, u16))
        ensures
            r.0 == inset(
                frame.width as int,
                self.horizontal_percent as int,
                self.min_horizontal as int,
                self.max_horizontal as int,
            ),
            r.1 == inset(
                frame.height as int,
                self.vertical_percent as int,
                self.min_vertical as int,
                self.max_vertical as int,
            ),
    {
        (
            clamp_u16(
                scaled_half(frame.width, self.horizontal_percent),
                self.min_horizontal,
                self.max_horizontal,
            ),
            clamp_u16(
                scaled_half(frame.height, self.vertical_percent),
                self.min_vertical,
                self.max_vertical,
            ),
        )
    }
}

fn scaled_half(extent: u16, percent: u16) -> (r: u32)
    ensures
        r == extent * percent / 100 / 2,
{
    proof {
        lemma_mul_upper_bound(extent as int, 65535, percent as int, 65535);
    }
    (extent as u32) * (percent as u32) / 100 / 2
}

fn clamp_u16(v: u32, lo: u16, hi: u16) -> (r: u16)
    ensures
        r == clamp(v as int, lo as int, hi as int),
{
    let raised: u32 = if v < lo as u32 {
        lo as u32
    } else {
        v
    };
    if raised > hi as u32 {
        hi
    } else {
        raised as u16
    }
}

/// `extent - cut`, or 0 when the cut is larger.
pub open spec fn shrunk(extent: int, cut: int) -> int {
    if cut <= extent {
        extent - cut
    } else {
        0
    }
}

/// `area` moved right by `h` and down by `v` cells and shrunk by twice as much, down to
/// nothing when the insets are larger than the area.
pub open spec fn padded(area: Rect, h: int, v: int) -> Rect {
    Rect {
        x: (area.x + h) as u16,
        y: (area.y + v) as u16,
        width: shrunk(area.width as int, 2 * h) as u16,
        height: shrunk(area.height as int, 2 * v) as u16,
    }
}

/// Shrinks `area` by the insets on every side; when both insets fit, the result lies
/// inside `area`.
pub fn pad(area: Rect, h: u16, v: u16) -> (r: Rect)
    requires
        area.x + h <= u16::MAX,
        area.y + v <= u16::MAX,
    ensures
        r == padded(area, h as int, v as int),
        2 * h <= area.width && 2 * v <= area.height ==> r.within(area),
{
    let width: u32 = (area.width as u32).saturating_sub(2 * (h as u32));
    let height: u32 = (area.height as u32).saturating_sub(2 * (v as u32));
    Rect { x: area.x + h, y: area.y + v, width: width as u16, height: height as u16 }
}

} // verus!
