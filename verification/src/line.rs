//! Discrete straight lines between two cells of the lattice.

use vstd::prelude::*;
use vstd::arithmetic::div_mod::lemma_fundamental_div_mod_converse;
use crate::vector::IntVector2;

verus! {

pub open spec fn abs_diff(a: int, b: int) -> int {
    if a >= b {
        a - b
    } else {
        b - a
    }
}

/// A line is steep where it covers more rows than columns; it is then scanned
/// along `y` instead of `x`.
pub open spec fn is_steep(start: IntVector2, end: IntVector2) -> bool {
    abs_diff(start.x as int, end.x as int) < abs_diff(start.y as int, end.y as int)
}

/// The coordinate along which the line is scanned.
pub open spec fn major_of(p: IntVector2, steep: bool) -> int {
    if steep {
        p.y as int
    } else {
        p.x as int
    }
}

/// The coordinate that follows the scan.
pub open spec fn minor_of(p: IntVector2, steep: bool) -> int {
    if steep {
        p.x as int
    } else {
        p.y as int
    }
}

/// The scan runs from the endpoint with the smaller major coordinate; it is
/// flipped where that endpoint is `end`.
pub open spec fn is_flipped(start: IntVector2, end: IntVector2) -> bool {
    major_of(start, is_steep(start, end)) > major_of(end, is_steep(start, end))
}

/// Number of steps of the line: the larger of its two spans.
pub open spec fn line_span(start: IntVector2, end: IntVector2) -> int {
    let steep = is_steep(start, end);
    abs_diff(major_of(start, steep), major_of(end, steep))
}

/// `step * rise / run`, rounded to the nearest integer, halves rounded down.
pub open spec fn rounded_rise(step: int, rise: int, run: int) -> int {
    if run == 0 {
        0
    } else {
        (2 * step * rise + run - 1) / (2 * run)
    }
}

/// The cell reached after `step` steps of a scan from `from` towards `to`.
pub open spec fn scan_cell(from: IntVector2, to: IntVector2, steep: bool, step: int) -> IntVector2 {
    let run = major_of(to, steep) - major_of(from, steep);
    let rise = abs_diff(minor_of(from, steep), minor_of(to, steep));
    let drift = rounded_rise(step, rise, run);
    let major = major_of(from, steep) + step;
    let minor = if minor_of(to, steep) > minor_of(from, steep) {
        minor_of(from, steep) + drift
    } else {
        minor_of(from, steep) - drift
    };
    if steep {
        IntVector2 { x: minor as i32, y: major as i32 }
    } else {
        IntVector2 { x: major as i32, y: minor as i32 }
    }
}

/// The `j`-th cell of the line from `start` to `end`, counted from `start`.
pub open spec fn line_cell(start: IntVector2, end: IntVector2, j: int) -> IntVector2 {
    let steep = is_steep(start, end);
    if is_flipped(start, end) {
        scan_cell(end, start, steep, line_span(start, end) - j)
    } else {
        scan_cell(start, end, steep, j)
    }
}

/// The cells of the line from `start` to `end`, both included, in that order.
pub open spec fn line_cells(start: IntVector2, end: IntVector2) -> Seq<IntVector2> {
    Seq::new((line_span(start, end) + 1) as nat, |j: int| line_cell(start, end, j))
}

/// Two cells touch where they differ by at most one in each coordinate.
pub open spec fn adjacent(a: IntVector2, b: IntVector2) -> bool {
    abs_diff(a.x as int, b.x as int) <= 1 && abs_diff(a.y as int, b.y as int) <= 1
}

/// The drift after `step` steps is the unique `k` whose error term
/// `2 * step * rise - 2 * run * k` lies in `(-run, run]`.
pub proof fn lemma_rounded_rise_unique(step: int, rise: int, run: int, k: int)
    requires
        run > 0,
        -run < 2 * step * rise - 2 * run * k <= run,
    ensures
        rounded_rise(step, rise, run) == k,
{
    let e = 2 * step * rise - 2 * run * k;
    assert(2 * step * rise + run - 1 == k * (2 * run) + (e + run - 1)) by (nonlinear_arith)
        requires
            e == 2 * step * rise - 2 * run * k,
    ;
    lemma_fundamental_div_mod_converse(2 * step * rise + run - 1, 2 * run, k, e + run - 1);
}

/// The drift stays between zero and the rise, is zero at the first step and
/// the full rise at the last, and grows by at most one per step.
pub proof fn lemma_rounded_rise_bounds(step: int, rise: int, run: int)
    requires
        0 <= rise <= run,
        0 <= step <= run,
    ensures
        0 <= rounded_rise(step, rise, run) <= rise,
        rounded_rise(0, rise, run) == 0,
        rounded_rise(run, rise, run) == rise,
        step < run ==> rounded_rise(step, rise, run) <= rounded_rise(step + 1, rise, run)
            <= rounded_rise(step, rise, run) + 1,
{
    if run > 0 {
        lemma_rounded_rise_unique(0, rise, run, 0);
        assert(2 * run * rise - 2 * run * rise == 0) by (nonlinear_arith);
        lemma_rounded_rise_unique(run, rise, run, rise);
        let k = rounded_rise(step, rise, run);
        let n = 2 * step * rise + run - 1;
        let d = 2 * run;
        assert(n == d * (n / d) + n % d && 0 <= n % d < d) by (nonlinear_arith)
            requires
                d > 0,
        ;
        assert(0 <= k <= rise) by (nonlinear_arith)
            requires
                n == d * k + n % d,
                0 <= n % d < d,
                n == 2 * step * rise + run - 1,
                d == 2 * run,
                0 <= rise <= run,
                0 <= step <= run,
                run > 0,
        ;
        if step < run {
            let k2 = rounded_rise(step + 1, rise, run);
            let n2 = 2 * (step + 1) * rise + run - 1;
            assert(n2 == d * (n2 / d) + n2 % d && 0 <= n2 % d < d) by (nonlinear_arith)
                requires
                    d > 0,
            ;
            assert(n2 == n + 2 * rise) by (nonlinear_arith)
                requires
                    n == 2 * step * rise + run - 1,
                    n2 == 2 * (step + 1) * rise + run - 1,
            ;
            assert(k <= k2 <= k + 1) by (nonlinear_arith)
                requires
                    n == d * k + n % d,
                    0 <= n % d < d,
                    n2 == d * k2 + n2 % d,
                    0 <= n2 % d < d,
                    n2 == n + 2 * rise,
                    d == 2 * run,
                    0 <= rise <= run,
            ;
        }
    }
}

/// A line starts at `start`, ends at `end`, has one cell per step of its
/// longer span, and each cell touches the next.
pub proof fn lemma_line_shape(start: IntVector2, end: IntVector2)
    ensures
        line_cells(start, end).len() == line_span(start, end) + 1,
        line_span(start, end) == if abs_diff(start.x as int, end.x as int) >= abs_diff(
            start.y as int,
            end.y as int,
        ) {
            abs_diff(start.x as int, end.x as int)
        } else {
            abs_diff(start.y as int, end.y as int)
        },
        line_cells(start, end).first() == start,
        line_cells(start, end).last() == end,
        forall|j: int|
            0 <= j < line_span(start, end) ==> adjacent(
                #[trigger] line_cells(start, end)[j],
                line_cells(start, end)[j + 1],
            ),
{
    let steep = is_steep(start, end);
    let n = line_span(start, end);
    let (from, to) = if is_flipped(start, end) {
        (end, start)
    } else {
        (start, end)
    };
    let run = major_of(to, steep) - major_of(from, steep);
    let rise = abs_diff(minor_of(from, steep), minor_of(to, steep));
    assert(run == n);
    assert(0 <= rise <= run);
    lemma_rounded_rise_bounds(0, rise, run);
    assert(scan_cell(from, to, steep, 0) == from);
    assert(scan_cell(from, to, steep, n) == to);
    assert(line_cells(start, end).first() == line_cell(start, end, 0));
    assert(line_cells(start, end).last() == line_cell(start, end, n));
    assert forall|j: int| 0 <= j < n implies adjacent(
        #[trigger] line_cells(start, end)[j],
        line_cells(start, end)[j + 1],
    ) by {
        let a = if is_flipped(start, end) {
            n - j - 1
        } else {
            j
        };
        lemma_rounded_rise_bounds(a, rise, run);
        lemma_rounded_rise_bounds(a + 1, rise, run);
        lemma_scan_cell_in_range(from, to, steep, a);
        lemma_scan_cell_in_range(from, to, steep, a + 1);
    }
}

/// Both coordinates of a scanned cell lie between those of the endpoints.
pub proof fn lemma_scan_cell_in_range(from: IntVector2, to: IntVector2, steep: bool, step: int)
    requires
        major_of(from, steep) <= major_of(to, steep),
        abs_diff(minor_of(from, steep), minor_of(to, steep)) <= major_of(to, steep) - major_of(
            from,
            steep,
        ),
        0 <= step <= major_of(to, steep) - major_of(from, steep),
    ensures
        major_of(scan_cell(from, to, steep, step), steep) == major_of(from, steep) + step,
        minor_of(scan_cell(from, to, steep, step), steep) == if minor_of(to, steep) > minor_of(
            from,
            steep,
        ) {
            minor_of(from, steep) + rounded_rise(
                step,
                abs_diff(minor_of(from, steep), minor_of(to, steep)),
                major_of(to, steep) - major_of(from, steep),
            )
        } else {
            minor_of(from, steep) - rounded_rise(
                step,
                abs_diff(minor_of(from, steep), minor_of(to, steep)),
                major_of(to, steep) - major_of(from, steep),
            )
        },
{
    lemma_rounded_rise_bounds(
        step,
        abs_diff(minor_of(from, steep), minor_of(to, steep)),
        major_of(to, steep) - major_of(from, steep),
    );
}

fn reversed(cells: &Vec<IntVector2>) -> (r: Vec<IntVector2>)
    ensures
        r@ == cells@.reverse(),
{
    let mut r: Vec<IntVector2> = Vec::new();
    let mut i: usize = cells.len();
    while i > 0
        invariant
            i <= cells.len(),
            r@.len() == cells.len() - i,
            forall|j: int| 0 <= j < r@.len() ==> r@[j] == cells@[cells.len() - 1 - j],
        decreases i,
    {
        i = i - 1;
        r.push(cells[i]);
    }
    assert(r@ =~= cells@.reverse());
    r
}

/// The line of cells from `start` to `end`, both included: integer Bresenham
/// scanning along the longer span, reported from `start` to `end`.
pub fn bresenham_line(start: IntVector2, end: IntVector2) -> (cells: Vec<IntVector2>)
    ensures
        cells@ == line_cells(start, end),
{
    let dxs: i64 = start.x as i64 - end.x as i64;
    let dys: i64 = start.y as i64 - end.y as i64;
    let adx: i64 = if dxs < 0 { -dxs } else { dxs };
    let ady: i64 = if dys < 0 { -dys } else { dys };
    let steep = adx < ady;
    let (a_major, a_minor, b_major, b_minor) = if steep {
        (start.y as i64, start.x as i64, end.y as i64, end.x as i64)
    } else {
        (start.x as i64, start.y as i64, end.x as i64, end.y as i64)
    };
    let flipped = a_major > b_major;
    let (x0, y0, x1, y1) = if flipped {
        (b_major, b_minor, a_major, a_minor)
    } else {
        (a_major, a_minor, b_major, b_minor)
    };
    let ghost from = if flipped { end } else { start };
    let ghost to = if flipped { start } else { end };
    let dx: i64 = x1 - x0;
    let dy: i64 = y1 - y0;
    let rise: i64 = if dy < 0 { -dy } else { dy };
    let derror2: i64 = rise * 2;
    let mut error2: i64 = 0;
    let mut y: i64 = y0;
    let mut cells: Vec<IntVector2> = Vec::new();
    let mut x: i64 = x0;
    let ghost mut k: int = 0;
    proof {
        lemma_rounded_rise_bounds(0, rise as int, dx as int);
        assert(2 * (x - x0) * rise - 2 * dx * k == 0) by (nonlinear_arith)
            requires
                x - x0 == 0,
                k == 0,
        ;
    }
    while x <= x1
        invariant
            steep == is_steep(start, end),
            x0 == major_of(from, steep),
            y0 == minor_of(from, steep),
            x1 == major_of(to, steep),
            y1 == minor_of(to, steep),
            dx == x1 - x0,
            rise == abs_diff(y0 as int, y1 as int),
            derror2 == 2 * rise,
            0 <= rise <= dx,
            x0 <= x <= x1 + 1,
            error2 == 2 * (x - x0) * rise - 2 * dx * k,
            dx > 0 ==> -dx < error2 <= dx,
            dx == 0 ==> error2 == 0 && k == 0,
            x <= x1 ==> k == rounded_rise(x - x0, rise as int, dx as int),
            0 <= k <= rise + 1,
            y == if y1 > y0 { y0 + k } else { y0 - k },
            cells@.len() == x - x0,
            forall|j: int| 0 <= j < cells@.len() ==> cells@[j] == scan_cell(from, to, steep, j),
        decreases x1 + 1 - x,
    {
        let ghost i = x - x0;
        proof {
            lemma_rounded_rise_bounds(i, rise as int, dx as int);
        }
        if steep {
            cells.push(IntVector2::new(y as i32, x as i32));
        } else {
            cells.push(IntVector2::new(x as i32, y as i32));
        }
        assert(cells@[i] == scan_cell(from, to, steep, i));
        assert(2 * (i + 1) * rise == 2 * i * rise + 2 * rise) by (nonlinear_arith);
        error2 = error2 + derror2;
        if error2 > dx {
            y = y + if y1 > y0 { 1 } else { -1 };
            assert(2 * dx * (k + 1) == 2 * dx * k + 2 * dx) by (nonlinear_arith);
            error2 = error2 - dx * 2;
            proof {
                k = k + 1;
            }
        }
        x = x + 1;
        proof {
            if x <= x1 {
                lemma_rounded_rise_unique(x - x0, rise as int, dx as int, k);
            }
        }
    }
    let ghost n = line_span(start, end);
    assert(cells@.len() == n + 1);
    if flipped {
        let r = reversed(&cells);
        assert(r@ =~= line_cells(start, end));
        r
    } else {
        assert(cells@ =~= line_cells(start, end));
        cells
    }
}

} // verus!
