//! The pixel kernel in arbitrary-precision decimals, and the row computer
//! that drives it.
//!
//! The kernel follows the orbit of a point under `z -> z^2 + c`, starting at
//! `z = c`, and counts the steps until the orbit is seen outside the circle
//! of squared radius four, or the cap is reached. The squares that the
//! escape test looks at are those of the step before: the test runs one
//! step behind the orbit.
//!
//! Every number on the way must stay in the range that the decimal
//! operations take. A number with digits is brought back to the chosen
//! precision after each step and stays there. A number that is exactly zero
//! has no digits to cut: squaring and padding only ever raise its scale, so
//! an orbit that keeps to exact zeros leaves the range after a few steps,
//! and the kernel then answers `None`.

use vstd::prelude::*;
use crate::decimal::{at_precision, below, minus, plus, times, whole, Decimal, DecimalValue};
use crate::palette::shade_of;

verus! {

/// The squared escape radius.
pub const ESCAPE_LIMIT: u32 = 4;

/// An orbit under way: the current point and the squares last computed.
pub struct Orbit {
    pub zx: DecimalValue,
    pub zy: DecimalValue,
    pub zx2: DecimalValue,
    pub zy2: DecimalValue,
}

/// The orbit of `c = (cx, cy)` before its first step.
pub open spec fn orbit_start(cx: DecimalValue, cy: DecimalValue) -> Option<Orbit> {
    match (times(cx, cx), times(cy, cy)) {
        (Some(zx2), Some(zy2)) => Some(Orbit { zx: cx, zy: cy, zx2, zy2 }),
        _ => None,
    }
}

/// Whether the escape test lets the orbit go on.
pub open spec fn inside(o: Orbit, limit: DecimalValue) -> Option<bool> {
    match plus(o.zx2, o.zy2) {
        Some(norm) => below(norm, limit),
        None => None,
    }
}

/// The new imaginary part: `2 * zx * zy + cy`, at the given precision.
pub open spec fn next_zy(o: Orbit, cy: DecimalValue, precision: u64) -> Option<DecimalValue> {
    match times(o.zx, o.zy) {
        Some(p) => match plus(p, p) {
            Some(twice) => match plus(twice, cy) {
                Some(moved) => at_precision(moved, precision),
                None => None,
            },
            None => None,
        },
        None => None,
    }
}

/// The new real part: `zx^2 - zy^2 + cx`, at the given precision.
pub open spec fn next_zx(
    zx2: DecimalValue,
    zy2: DecimalValue,
    cx: DecimalValue,
    precision: u64,
) -> Option<DecimalValue> {
    match minus(zx2, zy2) {
        Some(d) => match plus(d, cx) {
            Some(moved) => at_precision(moved, precision),
            None => None,
        },
        None => None,
    }
}

/// One step of the orbit.
pub open spec fn orbit_next(
    o: Orbit,
    cx: DecimalValue,
    cy: DecimalValue,
    precision: u64,
) -> Option<Orbit> {
    match (times(o.zx, o.zx), times(o.zy, o.zy)) {
        (Some(zx2), Some(zy2)) => match (next_zy(o, cy, precision), next_zx(zx2, zy2, cx, precision)) {
            (Some(zy), Some(zx)) => Some(Orbit { zx, zy, zx2, zy2 }),
            _ => None,
        },
        _ => None,
    }
}

/// The count that an orbit which has made `i` steps ends with.
pub open spec fn count_from(
    o: Orbit,
    cx: DecimalValue,
    cy: DecimalValue,
    limit: DecimalValue,
    precision: u64,
    i: nat,
    max_iter: nat,
) -> Option<nat>
    decreases max_iter - i,
{
    if i >= max_iter {
        Some(i)
    } else {
        match inside(o, limit) {
            None => None,
            Some(false) => Some(i),
            Some(true) => match orbit_next(o, cx, cy, precision) {
                None => None,
                Some(next) => count_from(next, cx, cy, limit, precision, i + 1, max_iter),
            },
        }
    }
}

/// The escape-time iteration count of the point `(cx, cy)`: how many steps
/// its orbit makes before the escape test stops it, at most `max_iter`.
/// `None` when a number on the way is out of the range that the decimal
/// operations take.
pub open spec fn escape_time(
    cx: DecimalValue,
    cy: DecimalValue,
    max_iter: nat,
    precision: u64,
) -> Option<nat> {
    match (at_precision(whole(ESCAPE_LIMIT), precision), orbit_start(cx, cy)) {
        (Some(limit), Some(o)) => count_from(o, cx, cy, limit, precision, 0, max_iter),
        _ => None,
    }
}

/// A count never passes the cap, and never falls below the steps made.
pub proof fn lemma_count_bounded(
    o: Orbit,
    cx: DecimalValue,
    cy: DecimalValue,
    limit: DecimalValue,
    precision: u64,
    i: nat,
    max_iter: nat,
)
    requires
        i <= max_iter,
    ensures
        count_from(o, cx, cy, limit, precision, i, max_iter) matches Some(n) ==> i <= n
            <= max_iter,
    decreases max_iter - i,
{
    if i < max_iter {
        if inside(o, limit) == Some(true) {
            if let Some(next) = orbit_next(o, cx, cy, precision) {
                lemma_count_bounded(next, cx, cy, limit, precision, i + 1, max_iter);
            }
        }
    }
}

/// The kernel is bounded: whatever the point, the precision and the cap, a
/// count lies between zero and the cap.
pub proof fn lemma_escape_time_bounded(
    cx: DecimalValue,
    cy: DecimalValue,
    max_iter: nat,
    precision: u64,
)
    ensures
        escape_time(cx, cy, max_iter, precision) matches Some(n) ==> n <= max_iter,
{
    if let (Some(limit), Some(o)) = (
        at_precision(whole(ESCAPE_LIMIT), precision),
        orbit_start(cx, cy),
    ) {
        lemma_count_bounded(o, cx, cy, limit, precision, 0, max_iter);
    }
}

/// The orbit as the kernel holds it.
struct OrbitState {
    zx: Decimal,
    zy: Decimal,
    zx2: Decimal,
    zy2: Decimal,
}

impl View for OrbitState {
    type V = Orbit;

    closed spec fn view(&self) -> Orbit {
        Orbit { zx: self.zx@, zy: self.zy@, zx2: self.zx2@, zy2: self.zy2@ }
    }
}

/// The escape test on the squares last computed.
fn still_inside(o: &OrbitState, limit: &Decimal) -> (r: Option<bool>)
    ensures
        r == inside(o@, limit@),
{
    let norm = o.zx2.checked_add(&o.zy2)?;
    norm.checked_lt(limit)
}

/// One step of the orbit.
fn step(o: &OrbitState, cx: &Decimal, cy: &Decimal, precision: u64) -> (r: Option<OrbitState>)
    ensures
        match r {
            Some(n) => orbit_next(o@, cx@, cy@, precision) == Some(n@),
            None => orbit_next(o@, cx@, cy@, precision) is None,
        },
{
    let zx2 = o.zx.checked_mul(&o.zx)?;
    let zy2 = o.zy.checked_mul(&o.zy)?;
    let p = o.zx.checked_mul(&o.zy)?;
    let twice = p.checked_add(&p)?;
    let zy = twice.checked_add(cy)?.checked_with_prec(precision)?;
    let zx = zx2.checked_sub(&zy2)?.checked_add(cx)?.checked_with_prec(precision)?;
    Some(OrbitState { zx, zy, zx2, zy2 })
}

/// The pixel kernel: the escape-time iteration count of the point
/// `(cx, cy)`, between zero and `max_iter`. The same point, cap and
/// precision always give the same count. `None` when a number on the way
/// is out of the range that the decimal operations take.
pub fn escape_count(cx: &Decimal, cy: &Decimal, max_iter: u32, precision: u64) -> (res: Option<u32>)
    ensures
        match res {
            Some(n) => escape_time(cx@, cy@, max_iter as nat, precision) == Some(n as nat) && n
                <= max_iter,
            None => escape_time(cx@, cy@, max_iter as nat, precision) is None,
        },
{
    let limit = Decimal::from_u32(ESCAPE_LIMIT).checked_with_prec(precision)?;
    let zx2 = cx.checked_mul(cx)?;
    let zy2 = cy.checked_mul(cy)?;
    let mut o = OrbitState { zx: cx.duplicate(), zy: cy.duplicate(), zx2, zy2 };
    let mut i: u32 = 0;
    while i < max_iter
        invariant
            i <= max_iter,
            escape_time(cx@, cy@, max_iter as nat, precision) == count_from(
                o@,
                cx@,
                cy@,
                limit@,
                precision,
                i as nat,
                max_iter as nat,
            ),
        decreases max_iter - i,
    {
        match still_inside(&o, &limit) {
            None => {
                return None;
            },
            Some(false) => {
                return Some(i);
            },
            Some(true) => {},
        }
        match step(&o, cx, cy, precision) {
            None => {
                return None;
            },
            Some(next) => {
                o = next;
            },
        }
        i = i + 1;
    }
    Some(i)
}

/// The view that a row is computed for: where the image's top left pixel
/// lies in the plane, how far apart neighbouring pixels are, and how the
/// kernel is to run.
pub struct Viewport {
    /// Real part of the leftmost column.
    pub origin_x: Decimal,
    /// Imaginary part of the top row.
    pub origin_y: Decimal,
    /// Distance between neighbouring pixels: one over the zoom factor.
    pub step: Decimal,
    /// Cap on the iteration count.
    pub max_iter: u32,
    /// Significant digits kept after each step of an orbit.
    pub precision: u64,
}

/// The imaginary part of row `y`: the origin plus `y` steps.
pub open spec fn row_coordinate(origin_y: DecimalValue, step: DecimalValue, y: u32) -> Option<
    DecimalValue,
> {
    match times(step, whole(y)) {
        Some(offset) => plus(origin_y, offset),
        None => None,
    }
}

/// The shades of a row from column `k` on, where the column's real part is
/// `x` and each further column lies one step to the right.
pub open spec fn shades_from(
    x: DecimalValue,
    cy: DecimalValue,
    step: DecimalValue,
    max_iter: nat,
    precision: u64,
    k: nat,
    width: nat,
) -> Option<Seq<u8>>
    decreases width - k,
{
    if k >= width {
        Some(Seq::empty())
    } else {
        match (escape_time(x, cy, max_iter, precision), plus(x, step)) {
            (Some(n), Some(right)) => match shades_from(
                right,
                cy,
                step,
                max_iter,
                precision,
                k + 1,
                width,
            ) {
                Some(rest) => Some(seq![(n % 16) as u8] + rest),
                None => None,
            },
            _ => None,
        }
    }
}

/// The shades of row `y` of an image `width` pixels wide.
pub open spec fn row_shades(
    origin_x: DecimalValue,
    origin_y: DecimalValue,
    step: DecimalValue,
    max_iter: nat,
    precision: u64,
    width: nat,
    y: u32,
) -> Option<Seq<u8>> {
    match row_coordinate(origin_y, step, y) {
        Some(cy) => shades_from(origin_x, cy, step, max_iter, precision, 0, width),
        None => None,
    }
}

/// A row is as wide as the image.
pub proof fn lemma_shades_from_len(
    x: DecimalValue,
    cy: DecimalValue,
    step: DecimalValue,
    max_iter: nat,
    precision: u64,
    k: nat,
    width: nat,
)
    requires
        k <= width,
    ensures
        shades_from(x, cy, step, max_iter, precision, k, width) matches Some(row) ==> row.len()
            == width - k && forall|j: int| 0 <= j < row.len() ==> #[trigger] row[j] < 16,
    decreases width - k,
{
    if k < width {
        if let (Some(n), Some(right)) = (escape_time(x, cy, max_iter, precision), plus(x, step)) {
            lemma_shades_from_len(right, cy, step, max_iter, precision, k + 1, width);
        }
    }
}

impl Viewport {
    /// The row computer: the shades of row `y`, one per column from the
    /// left, each the kernel's count for its pixel reduced to a shade.
    /// `None` when a number on the way is out of the range that the decimal
    /// operations take.
    pub fn compute_row(&self, width: u32, y: u32) -> (res: Option<Vec<u8>>)
        ensures
            match res {
                Some(row) => row_shades(
                    self.origin_x@,
                    self.origin_y@,
                    self.step@,
                    self.max_iter as nat,
                    self.precision,
                    width as nat,
                    y,
                ) == Some(row@) && row.len() == width,
                None => row_shades(
                    self.origin_x@,
                    self.origin_y@,
                    self.step@,
                    self.max_iter as nat,
                    self.precision,
                    width as nat,
                    y,
                ) is None,
            },
    {
        let offset = self.step.checked_mul(&Decimal::from_u32(y))?;
        let cy = self.origin_y.checked_add(&offset)?;
        let mut x = self.origin_x.duplicate();
        let mut row: Vec<u8> = Vec::new();
        let mut k: u32 = 0;
        let ghost whole_row = shades_from(
            self.origin_x@,
            cy@,
            self.step@,
            self.max_iter as nat,
            self.precision,
            0,
            width as nat,
        );
        while k < width
            invariant
                k <= width,
                row.len() == k,
                whole_row == row_shades(
                    self.origin_x@,
                    self.origin_y@,
                    self.step@,
                    self.max_iter as nat,
                    self.precision,
                    width as nat,
                    y,
                ),
                whole_row == match shades_from(
                    x@,
                    cy@,
                    self.step@,
                    self.max_iter as nat,
                    self.precision,
                    k as nat,
                    width as nat,
                ) {
                    Some(rest) => Some(row@ + rest),
                    None => None,
                },
            decreases width - k,
        {
            let ghost before = row@;
            let ghost here = x@;
            let count = escape_count(&x, &cy, self.max_iter, self.precision)?;
            let right = x.checked_add(&self.step)?;
            row.push(shade_of(count));
            x = right;
            k = k + 1;
            proof {
                match shades_from(
                    x@,
                    cy@,
                    self.step@,
                    self.max_iter as nat,
                    self.precision,
                    k as nat,
                    width as nat,
                ) {
                    Some(rest) => {
                        assert(row@ + rest =~= before + (seq![(count % 16) as u8] + rest));
                    },
                    None => {},
                }
            }
        }
        proof {
            assert(row@ + Seq::<u8>::empty() =~= row@);
        }
        Some(row)
    }
}

} // verus!
