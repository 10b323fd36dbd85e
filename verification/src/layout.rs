//! Layout algorithms and the flip state.
//!
//! `Layout::calculate` is the pure layout engine: from a work area and a
//! container count it produces one rectangle per container. Flips reflect
//! the computed rectangles across the midlines of the work area.

use vstd::prelude::*;

use crate::direction::OperationDirection;
use crate::direction::Sizing;
use crate::rect::Rect;
use crate::rect::Region;
use crate::rect::COORD_LIMIT;

verus! {

/// The layout algorithm of a workspace.
#[derive(Debug, Clone, Copy, PartialEq, Eq, Structural)]
pub enum Layout {
    Bsp,
    Columns,
    Rows,
    VerticalStack,
    HorizontalStack,
    UltrawideVerticalStack,
}

/// A reflection of the computed layout across one or both midlines of the
/// work area.
#[derive(Debug, Clone, Copy, PartialEq, Eq, Structural)]
pub enum Flip {
    Horizontal,
    Vertical,
    HorizontalAndVertical,
}

impl Flip {
    /// The flip state after requesting `requested` while `current` is in
    /// effect: requesting an axis already in effect clears that axis;
    /// requesting the combined flip from a single axis saturates to the
    /// combined flip; requesting anything out of the combined flip removes
    /// the requested part.
    pub open spec fn spec_merge(current: Option<Flip>, requested: Flip) -> Option<Flip> {
        match current {
            None => Some(requested),
            Some(Flip::Horizontal) => match requested {
                Flip::Horizontal => None,
                Flip::Vertical => Some(Flip::HorizontalAndVertical),
                Flip::HorizontalAndVertical => Some(Flip::HorizontalAndVertical),
            },
            Some(Flip::Vertical) => match requested {
                Flip::Horizontal => Some(Flip::HorizontalAndVertical),
                Flip::Vertical => None,
                Flip::HorizontalAndVertical => Some(Flip::HorizontalAndVertical),
            },
            Some(Flip::HorizontalAndVertical) => match requested {
                Flip::Horizontal => Some(Flip::Vertical),
                Flip::Vertical => Some(Flip::Horizontal),
                Flip::HorizontalAndVertical => None,
            },
        }
    }

    /// Merge a flip request into the current flip state.
    pub fn merge(current: Option<Flip>, requested: Flip) -> (r: Option<Flip>)
        ensures
            r == Self::spec_merge(current, requested),
    {
        match current {
            None => Some(requested),
            Some(Flip::Horizontal) => match requested {
                Flip::Horizontal => None,
                Flip::Vertical => Some(Flip::HorizontalAndVertical),
                Flip::HorizontalAndVertical => Some(Flip::HorizontalAndVertical),
            },
            Some(Flip::Vertical) => match requested {
                Flip::Horizontal => Some(Flip::HorizontalAndVertical),
                Flip::Vertical => None,
                Flip::HorizontalAndVertical => Some(Flip::HorizontalAndVertical),
            },
            Some(Flip::HorizontalAndVertical) => match requested {
                Flip::Horizontal => Some(Flip::Vertical),
                Flip::Vertical => Some(Flip::Horizontal),
                Flip::HorizontalAndVertical => None,
            },
        }
    }
}

/// Requesting the horizontal flip twice in a row returns to the starting
/// state, whatever it was.
pub proof fn lemma_flip_horizontal_twice(s: Option<Flip>)
    ensures
        Flip::spec_merge(Flip::spec_merge(s, Flip::Horizontal), Flip::Horizontal) == s,
{
}

/// Requesting the vertical flip twice in a row returns to the starting
/// state, whatever it was.
pub proof fn lemma_flip_vertical_twice(s: Option<Flip>)
    ensures
        Flip::spec_merge(Flip::spec_merge(s, Flip::Vertical), Flip::Vertical) == s,
{
}

/// From the unflipped state, repeated requests of the combined flip cycle
/// between the combined flip and the unflipped state.
pub proof fn lemma_flip_both_cycles()
    ensures
        Flip::spec_merge(None, Flip::HorizontalAndVertical) == Some(Flip::HorizontalAndVertical),
        Flip::spec_merge(Some(Flip::HorizontalAndVertical), Flip::HorizontalAndVertical)
            == None::<Flip>,
{
}

/// `n` consecutive strips along one axis, starting at `start` and covering
/// `rem` in total: every strip but the last has size `w`, and the last
/// takes whatever remains.
pub open spec fn spec_strips(start: int, rem: int, w: int, n: nat) -> Seq<(int, int)>
    decreases n,
{
    if n <= 1 {
        seq![(start, rem)]
    } else {
        seq![(start, w)] + spec_strips(start + w, rem - w, w, (n - 1) as nat)
    }
}

/// Strips turned into full-height columns of `a`.
pub open spec fn cols_of_strips(s: Seq<(int, int)>, a: Region) -> Seq<Region> {
    s.map_values(
        |p: (int, int)| Region { left: p.0, top: a.top, right: p.1, bottom: a.bottom },
    )
}

/// Strips turned into full-width rows of `a`.
pub open spec fn rows_of_strips(s: Seq<(int, int)>, a: Region) -> Seq<Region> {
    s.map_values(
        |p: (int, int)| Region { left: a.left, top: p.0, right: a.right, bottom: p.1 },
    )
}

/// Recursive bisection: when `vcut` holds the area is cut vertically and
/// the left half is emitted, otherwise it is cut horizontally and the top
/// half is emitted; the cuts alternate while the remainder is subdivided
/// for the remaining count.
pub open spec fn spec_bsp_dir(a: Region, n: nat, vcut: bool) -> Seq<Region>
    decreases n,
{
    if n <= 1 {
        seq![a]
    } else if vcut {
        let w0 = a.right / 2;
        seq![Region { left: a.left, top: a.top, right: w0, bottom: a.bottom }]
            + spec_bsp_dir(
            Region { left: a.left + w0, top: a.top, right: a.right - w0, bottom: a.bottom },
            (n - 1) as nat,
            false,
        )
    } else {
        let h0 = a.bottom / 2;
        seq![Region { left: a.left, top: a.top, right: a.right, bottom: h0 }]
            + spec_bsp_dir(
            Region { left: a.left, top: a.top + h0, right: a.right, bottom: a.bottom - h0 },
            (n - 1) as nat,
            true,
        )
    }
}

/// The side stack of a vertical-stack layout: the right half of `a`.
pub open spec fn right_half(a: Region) -> Region {
    Region {
        left: a.left + a.right / 2,
        top: a.top,
        right: a.right - a.right / 2,
        bottom: a.bottom,
    }
}

/// The side stack of a horizontal-stack layout: the bottom half of `a`.
pub open spec fn bottom_half(a: Region) -> Region {
    Region {
        left: a.left,
        top: a.top + a.bottom / 2,
        right: a.right,
        bottom: a.bottom - a.bottom / 2,
    }
}

/// The unflipped, unpadded rectangles of `l` for `n` containers in `a`.
pub open spec fn spec_base(l: Layout, a: Region, n: nat) -> Seq<Region> {
    match l {
        Layout::Bsp => spec_bsp_dir(a, n, true),
        Layout::Columns => cols_of_strips(
            spec_strips(a.left, a.right, a.right / (n as int), n),
            a,
        ),
        Layout::Rows => rows_of_strips(
            spec_strips(a.top, a.bottom, a.bottom / (n as int), n),
            a,
        ),
        Layout::VerticalStack => if n <= 1 {
            seq![a]
        } else {
            let side = right_half(a);
            seq![Region { left: a.left, top: a.top, right: a.right / 2, bottom: a.bottom }]
                + rows_of_strips(
                spec_strips(side.top, side.bottom, side.bottom / (n - 1), (n - 1) as nat),
                side,
            )
        },
        Layout::HorizontalStack => if n <= 1 {
            seq![a]
        } else {
            let side = bottom_half(a);
            seq![Region { left: a.left, top: a.top, right: a.right, bottom: a.bottom / 2 }]
                + cols_of_strips(
                spec_strips(side.left, side.right, side.right / (n - 1), (n - 1) as nat),
                side,
            )
        },
        Layout::UltrawideVerticalStack => if n <= 1 {
            seq![a]
        } else {
            let q = a.right / 4;
            let h = a.right / 2;
            let center = Region { left: a.left + q, top: a.top, right: h, bottom: a.bottom };
            let left_zone = Region { left: a.left, top: a.top, right: q, bottom: a.bottom };
            if n == 2 {
                seq![center, left_zone]
            } else {
                let right_zone = Region {
                    left: a.left + q + h,
                    top: a.top,
                    right: a.right - q - h,
                    bottom: a.bottom,
                };
                seq![center, left_zone] + rows_of_strips(
                    spec_strips(
                        right_zone.top,
                        right_zone.bottom,
                        right_zone.bottom / (n - 2),
                        (n - 2) as nat,
                    ),
                    right_zone,
                )
            }
        },
    }
}

/// A stored resize delta shifts each edge of its rectangle.
pub open spec fn spec_apply_delta(r: Region, d: Option<Rect>) -> Region {
    match d {
        None => r,
        Some(d) => Region {
            left: r.left + d.left,
            top: r.top + d.top,
            right: r.right + d.right,
            bottom: r.bottom + d.bottom,
        },
    }
}

/// Symmetric padding: the rectangle shrinks by `p` on every side.
pub open spec fn spec_pad(r: Region, p: int) -> Region {
    Region { left: r.left + p, top: r.top + p, right: r.right - 2 * p, bottom: r.bottom - 2 * p }
}

/// Reflection of `r` across the vertical and/or horizontal midline of `a`.
pub open spec fn spec_flip_region(r: Region, a: Region, f: Option<Flip>) -> Region {
    let fh = f == Some(Flip::Horizontal) || f == Some(Flip::HorizontalAndVertical);
    let fv = f == Some(Flip::Vertical) || f == Some(Flip::HorizontalAndVertical);
    Region {
        left: if fh {
            2 * a.left + a.right - r.left - r.right
        } else {
            r.left
        },
        top: if fv {
            2 * a.top + a.bottom - r.top - r.bottom
        } else {
            r.top
        },
        right: r.right,
        bottom: r.bottom,
    }
}

/// The container padding as an integer; absent padding pads by nothing.
pub open spec fn pad_int(cp: Option<i32>) -> int {
    match cp {
        None => 0,
        Some(p) => p as int,
    }
}

/// One base rectangle taken through the remaining stages: resize delta,
/// container padding, flip.
pub open spec fn spec_finish(r: Region, d: Option<Rect>, p: int, a: Region, f: Option<Flip>)
    -> Region {
    spec_flip_region(spec_pad(spec_apply_delta(r, d), p), a, f)
}

/// The views of a sequence of rectangles.
pub open spec fn regions_of(s: Seq<Rect>) -> Seq<Region> {
    s.map_values(|r: Rect| r.region())
}

/// An absent delta, or a present one with bounded fields.
pub open spec fn delta_opt_ok(d: Option<Rect>) -> bool {
    match d {
        None => true,
        Some(d) => d.delta_ok(),
    }
}

/// An absent padding, or a present one bounded by the coordinate limit.
pub open spec fn padding_ok(p: Option<i32>) -> bool {
    match p {
        None => true,
        Some(p) => -COORD_LIMIT <= p <= COORD_LIMIT,
    }
}

/// Dividing `rem` by `n` gives a strip width that fits `n` strips.
proof fn lemma_strip_width(rem: int, n: int)
    requires
        rem >= 0,
        n >= 1,
    ensures
        0 <= rem / n,
        (n - 1) * (rem / n) <= rem,
        n >= 2 ==> rem / n <= rem,
{
    vstd::arithmetic::div_mod::lemma_fundamental_div_mod(rem, n);
    vstd::arithmetic::div_mod::lemma_mod_bound(rem, n);
    let q = rem / n;
    if q < 0 {
        vstd::arithmetic::mul::lemma_mul_inequality(q, -1, n);
        assert(q * n == n * q) by (nonlinear_arith);
        assert(false);
    }
    vstd::arithmetic::mul::lemma_mul_inequality(n - 1, n, q);
    assert((n - 1) * q <= n * q);
    assert(n * q <= rem);
}

/// Every strip lies inside the span it subdivides.
proof fn lemma_strips_ok(start: int, rem: int, w: int, n: nat)
    requires
        n >= 1,
        0 <= w,
        0 <= rem,
        (n - 1) * w <= rem,
    ensures
        spec_strips(start, rem, w, n).len() == n,
        forall|i: int|
            0 <= i < n ==> {
                let s = #[trigger] spec_strips(start, rem, w, n)[i];
                start <= s.0 && s.0 + s.1 <= start + rem && 0 <= s.1 <= rem
            },
    decreases n,
{
    if n > 1 {
        assert((n - 2) * w == (n - 1) * w - w) by (nonlinear_arith);
        assert(1 * w <= (n - 1) * w) by (nonlinear_arith)
            requires
                n >= 2,
                w >= 0,
        ;
        lemma_strips_ok(start + w, rem - w, w, (n - 1) as nat);
    }
}

/// Every rectangle of the bisection layout lies inside the area it
/// subdivides, so its coordinates stay within the layout bounds.
proof fn lemma_bsp_ok(a: Region, n: nat, vcut: bool)
    requires
        n >= 1,
        a.ok(),
    ensures
        spec_bsp_dir(a, n, vcut).len() == n,
        forall|i: int| 0 <= i < n ==> (#[trigger] spec_bsp_dir(a, n, vcut)[i]).ok(),
    decreases n,
{
    if n > 1 {
        if vcut {
            let w0 = a.right / 2;
            lemma_strip_width(a.right, 2);
            lemma_bsp_ok(
                Region { left: a.left + w0, top: a.top, right: a.right - w0, bottom: a.bottom },
                (n - 1) as nat,
                !vcut,
            );
        } else {
            let h0 = a.bottom / 2;
            lemma_strip_width(a.bottom, 2);
            lemma_bsp_ok(
                Region { left: a.left, top: a.top + h0, right: a.right, bottom: a.bottom - h0 },
                (n - 1) as nat,
                !vcut,
            );
        }
    }
}

/// The delta stored for container `i`, or none beyond the stored range.
pub open spec fn delta_at(ds: Seq<Option<Rect>>, i: int) -> Option<Rect> {
    if 0 <= i < ds.len() {
        ds[i]
    } else {
        None
    }
}

/// The full layout computation: one region per container.
pub open spec fn spec_calculate(
    l: Layout,
    a: Region,
    n: nat,
    cp: Option<i32>,
    f: Option<Flip>,
    ds: Seq<Option<Rect>>,
) -> Seq<Region> {
    let base = spec_base(l, a, n);
    Seq::new(base.len(), |i: int| spec_finish(base[i], delta_at(ds, i), pad_int(cp), a, f))
}

/// Half of a non-negative coordinate.
pub(crate) fn half_of(x: i32) -> (r: i32)
    requires
        0 <= x,
    ensures
        r == x as int / 2,
{
    ((x as u32) / 2) as i32
}

/// A non-negative coordinate divided by a positive count.
fn div_pos(x: i32, d: usize) -> (r: i32)
    requires
        0 <= x,
        1 <= d,
        d <= COORD_LIMIT as usize,
    ensures
        r == x as int / d as int,
{
    ((x as u32) / (d as u32)) as i32
}

/// Append `n` columns subdividing the horizontal span `[start, start+rem)`
/// at height `top`/`bottom`.
fn push_cols(out: &mut Vec<Rect>, top: i32, bottom: i32, start: i32, rem: i32, w: i32, n: usize)
    requires
        n >= 1,
        0 <= w,
        0 <= rem <= COORD_LIMIT,
        (n - 1) * w <= rem,
        -4 * COORD_LIMIT <= start,
        start + rem <= 4 * COORD_LIMIT,
        -4 * COORD_LIMIT <= top,
        top + bottom <= 4 * COORD_LIMIT,
        0 <= bottom <= COORD_LIMIT,
    ensures
        regions_of(final(out)@) == regions_of(old(out)@) + cols_of_strips(
            spec_strips(start as int, rem as int, w as int, n as nat),
            Region { left: 0, top: top as int, right: 0, bottom: bottom as int },
        ),
    decreases n,
{
    let ghost a = Region { left: 0, top: top as int, right: 0, bottom: bottom as int };
    if n == 1 {
        out.push(Rect { left: start, top, right: rem, bottom });
        proof {
            assert(regions_of(out@) =~= regions_of(old(out)@) + cols_of_strips(
                spec_strips(start as int, rem as int, w as int, 1),
                a,
            ));
        }
    } else {
        proof {
            assert(1 * w <= (n - 1) * w && (n - 2) * w == (n - 1) * w - w) by (nonlinear_arith)
                requires
                    n >= 2,
                    0 <= w,
            ;
        }
        out.push(Rect { left: start, top, right: w, bottom });
        push_cols(out, top, bottom, start + w, rem - w, w, n - 1);
        proof {
            assert(regions_of(out@) =~= regions_of(old(out)@) + cols_of_strips(
                spec_strips(start as int, rem as int, w as int, n as nat),
                a,
            ));
        }
    }
}

/// Append `n` rows subdividing the vertical span `[start, start+rem)` at
/// width `left`/`right`.
fn push_rows(out: &mut Vec<Rect>, left: i32, right: i32, start: i32, rem: i32, w: i32, n: usize)
    requires
        n >= 1,
        0 <= w,
        0 <= rem <= COORD_LIMIT,
        (n - 1) * w <= rem,
        -4 * COORD_LIMIT <= start,
        start + rem <= 4 * COORD_LIMIT,
        -4 * COORD_LIMIT <= left,
        left + right <= 4 * COORD_LIMIT,
        0 <= right <= COORD_LIMIT,
    ensures
        regions_of(final(out)@) == regions_of(old(out)@) + rows_of_strips(
            spec_strips(start as int, rem as int, w as int, n as nat),
            Region { left: left as int, top: 0, right: right as int, bottom: 0 },
        ),
    decreases n,
{
    let ghost a = Region { left: left as int, top: 0, right: right as int, bottom: 0 };
    if n == 1 {
        out.push(Rect { left, top: start, right, bottom: rem });
        proof {
            assert(regions_of(out@) =~= regions_of(old(out)@) + rows_of_strips(
                spec_strips(start as int, rem as int, w as int, 1),
                a,
            ));
        }
    } else {
        proof {
            assert(1 * w <= (n - 1) * w && (n - 2) * w == (n - 1) * w - w) by (nonlinear_arith)
                requires
                    n >= 2,
                    0 <= w,
            ;
        }
        out.push(Rect { left, top: start, right, bottom: w });
        push_rows(out, left, right, start + w, rem - w, w, n - 1);
        proof {
            assert(regions_of(out@) =~= regions_of(old(out)@) + rows_of_strips(
                spec_strips(start as int, rem as int, w as int, n as nat),
                a,
            ));
        }
    }
}

/// Append the `n` rectangles of the bisection layout for `area`.
fn push_bsp(out: &mut Vec<Rect>, area: Rect, n: usize, vcut: bool)
    requires
        n >= 1,
        area.region().ok(),
    ensures
        regions_of(final(out)@) == regions_of(old(out)@) + spec_bsp_dir(
            area.region(),
            n as nat,
            vcut,
        ),
    decreases n,
{
    if n == 1 {
        out.push(area);
        proof {
            assert(regions_of(out@) =~= regions_of(old(out)@) + spec_bsp_dir(
                area.region(),
                1,
                vcut,
            ));
        }
    } else if vcut {
        let w0 = half_of(area.right);
        proof {
            lemma_strip_width(area.right as int, 2);
        }
        out.push(Rect { left: area.left, top: area.top, right: w0, bottom: area.bottom });
        push_bsp(
            out,
            Rect {
                left: area.left + w0,
                top: area.top,
                right: area.right - w0,
                bottom: area.bottom,
            },
            n - 1,
            false,
        );
        proof {
            assert(regions_of(out@) =~= regions_of(old(out)@) + spec_bsp_dir(
                area.region(),
                n as nat,
                vcut,
            ));
        }
    } else {
        let h0 = half_of(area.bottom);
        proof {
            lemma_strip_width(area.bottom as int, 2);
        }
        out.push(Rect { left: area.left, top: area.top, right: area.right, bottom: h0 });
        push_bsp(
            out,
            Rect {
                left: area.left,
                top: area.top + h0,
                right: area.right,
                bottom: area.bottom - h0,
            },
            n - 1,
            true,
        );
        proof {
            assert(regions_of(out@) =~= regions_of(old(out)@) + spec_bsp_dir(
                area.region(),
                n as nat,
                vcut,
            ));
        }
    }
}

/// Every rectangle of the base layout lies inside the work area's bounds.
proof fn lemma_base_ok(l: Layout, a: Region, n: nat)
    requires
        n >= 1,
        a.ok(),
    ensures
        spec_base(l, a, n).len() == n,
        forall|i: int| 0 <= i < n ==> (#[trigger] spec_base(l, a, n)[i]).ok(),
{
    match l {
        Layout::Bsp => {
            lemma_bsp_ok(a, n, true);
        },
        Layout::Columns => {
            lemma_strip_width(a.right, n as int);
            lemma_strips_ok(a.left, a.right, a.right / (n as int), n);
        },
        Layout::Rows => {
            lemma_strip_width(a.bottom, n as int);
            lemma_strips_ok(a.top, a.bottom, a.bottom / (n as int), n);
        },
        Layout::VerticalStack => {
            if n > 1 {
                lemma_strip_width(a.right, 2);
                let side = right_half(a);
                lemma_strip_width(side.bottom, n - 1);
                lemma_strips_ok(side.top, side.bottom, side.bottom / (n - 1), (n - 1) as nat);
            }
        },
        Layout::HorizontalStack => {
            if n > 1 {
                lemma_strip_width(a.bottom, 2);
                let side = bottom_half(a);
                lemma_strip_width(side.right, n - 1);
                lemma_strips_ok(side.left, side.right, side.right / (n - 1), (n - 1) as nat);
            }
        },
        Layout::UltrawideVerticalStack => {
            if n > 1 {
                lemma_strip_width(a.right, 2);
                lemma_strip_width(a.right, 4);
                vstd::arithmetic::div_mod::lemma_fundamental_div_mod(a.right, 2);
                vstd::arithmetic::div_mod::lemma_mod_bound(a.right, 2);
                vstd::arithmetic::div_mod::lemma_fundamental_div_mod(a.right, 4);
                vstd::arithmetic::div_mod::lemma_mod_bound(a.right, 4);
                assert(a.right / 4 + a.right / 2 <= a.right);
                if n > 2 {
                    let q = a.right / 4;
                    let h = a.right / 2;
                    let rz = Region {
                        left: a.left + q + h,
                        top: a.top,
                        right: a.right - q - h,
                        bottom: a.bottom,
                    };
                    lemma_strip_width(rz.bottom, n - 2);
                    lemma_strips_ok(rz.top, rz.bottom, rz.bottom / (n - 2), (n - 2) as nat);
                }
            }
        },
    }
}

impl Layout {
    /// One rectangle per container: the chosen algorithm subdivides the
    /// work area, each container's stored resize delta shifts its edges,
    /// the container padding shrinks every rectangle symmetrically, and the
    /// flip reflects the result across the midlines of the work area.
    pub fn calculate(
        &self,
        area: &Rect,
        len: usize,
        container_padding: Option<i32>,
        layout_flip: Option<Flip>,
        resize_dimensions: &Vec<Option<Rect>>,
    ) -> (r: Vec<Rect>)
        requires
            1 <= len <= COORD_LIMIT as usize,
            area.region().ok(),
            forall|i: int|
                0 <= i < resize_dimensions@.len() ==> delta_opt_ok(#[trigger] resize_dimensions@[i]),
            padding_ok(container_padding),
        ensures
            r@.len() == len,
            regions_of(r@) == spec_calculate(
                *self,
                area.region(),
                len as nat,
                container_padding,
                layout_flip,
                resize_dimensions@,
            ),
    {
        let mut base: Vec<Rect> = Vec::new();
        match self {
            Layout::Bsp => {
                push_bsp(&mut base, *area, len, true);
            },
            Layout::Columns => {
                let w = div_pos(area.right, len);
                proof {
                    lemma_strip_width(area.right as int, len as int);
                }
                push_cols(&mut base, area.top, area.bottom, area.left, area.right, w, len);
            },
            Layout::Rows => {
                let w = div_pos(area.bottom, len);
                proof {
                    lemma_strip_width(area.bottom as int, len as int);
                }
                push_rows(&mut base, area.left, area.right, area.top, area.bottom, w, len);
            },
            Layout::VerticalStack => {
                if len == 1 {
                    base.push(*area);
                } else {
                    let w0 = half_of(area.right);
                    proof {
                        lemma_strip_width(area.right as int, 2);
                    }
                    base.push(
                        Rect { left: area.left, top: area.top, right: w0, bottom: area.bottom },
                    );
                    let w = div_pos(area.bottom, len - 1);
                    proof {
                        lemma_strip_width(area.bottom as int, len as int - 1);
                    }
                    push_rows(
                        &mut base,
                        area.left + w0,
                        area.right - w0,
                        area.top,
                        area.bottom,
                        w,
                        len - 1,
                    );
                }
            },
            Layout::HorizontalStack => {
                if len == 1 {
                    base.push(*area);
                } else {
                    let h0 = half_of(area.bottom);
                    proof {
                        lemma_strip_width(area.bottom as int, 2);
                    }
                    base.push(
                        Rect { left: area.left, top: area.top, right: area.right, bottom: h0 },
                    );
                    let w = div_pos(area.right, len - 1);
                    proof {
                        lemma_strip_width(area.right as int, len as int - 1);
                    }
                    push_cols(
                        &mut base,
                        area.top + h0,
                        area.bottom - h0,
                        area.left,
                        area.right,
                        w,
                        len - 1,
                    );
                }
            },
            Layout::UltrawideVerticalStack => {
                if len == 1 {
                    base.push(*area);
                } else {
                    let q = div_pos(area.right, 4);
                    let h = half_of(area.right);
                    proof {
                        lemma_strip_width(area.right as int, 4);
                        lemma_strip_width(area.right as int, 2);
                        vstd::arithmetic::div_mod::lemma_fundamental_div_mod(area.right as int, 2);
                        vstd::arithmetic::div_mod::lemma_mod_bound(area.right as int, 2);
                        vstd::arithmetic::div_mod::lemma_fundamental_div_mod(area.right as int, 4);
                        vstd::arithmetic::div_mod::lemma_mod_bound(area.right as int, 4);
                        assert(q as int + h as int <= area.right as int);
                    }
                    base.push(
                        Rect { left: area.left + q, top: area.top, right: h, bottom: area.bottom },
                    );
                    base.push(
                        Rect { left: area.left, top: area.top, right: q, bottom: area.bottom },
                    );
                    if len > 2 {
                        let w = div_pos(area.bottom, len - 2);
                        proof {
                            lemma_strip_width(area.bottom as int, len as int - 2);
                        }
                        push_rows(
                            &mut base,
                            area.left + q + h,
                            area.right - q - h,
                            area.top,
                            area.bottom,
                            w,
                            len - 2,
                        );
                    }
                }
            },
        }
        proof {
            assert(regions_of(base@) =~= spec_base(*self, area.region(), len as nat));
            lemma_base_ok(*self, area.region(), len as nat);
        }
        let ghost baseseq = spec_base(*self, area.region(), len as nat);

        let p: i32 = match container_padding {
            Some(p) => p,
            None => 0,
        };
        let mut out: Vec<Rect> = Vec::new();
        let mut i: usize = 0;
        while i < len
            invariant
                i <= len,
                out@.len() == i,
                base@.len() == len,
                len <= COORD_LIMIT as usize,
                regions_of(base@) == baseseq,
                baseseq.len() == len,
                forall|j: int| 0 <= j < len ==> (#[trigger] baseseq[j]).ok(),
                forall|j: int|
                    0 <= j < resize_dimensions@.len() ==> delta_opt_ok(
                        #[trigger] resize_dimensions@[j],
                    ),
                area.region().ok(),
                -COORD_LIMIT <= p <= COORD_LIMIT,
                p as int == pad_int(container_padding),
                forall|j: int|
                    0 <= j < i ==> (#[trigger] out@[j]).region() == spec_finish(
                        baseseq[j],
                        delta_at(resize_dimensions@, j),
                        p as int,
                        area.region(),
                        layout_flip,
                    ),
            decreases len - i,
        {
            let b = base[i];
            proof {
                assert(regions_of(base@)[i as int] == baseseq[i as int]);
            }
            let dd: Option<Rect> = if i < resize_dimensions.len() {
                resize_dimensions[i]
            } else {
                None
            };
            let mut left = b.left;
            let mut top = b.top;
            let mut right = b.right;
            let mut bottom = b.bottom;
            match dd {
                Some(d) => {
                    left = left + d.left;
                    top = top + d.top;
                    right = right + d.right;
                    bottom = bottom + d.bottom;
                },
                None => {},
            }
            left = left + p;
            top = top + p;
            right = right - 2 * p;
            bottom = bottom - 2 * p;
            let fh = matches!(
                layout_flip,
                Some(Flip::Horizontal) | Some(Flip::HorizontalAndVertical)
            );
            let fv = matches!(
                layout_flip,
                Some(Flip::Vertical) | Some(Flip::HorizontalAndVertical)
            );
            if fh {
                left = 2 * area.left + area.right - left - right;
            }
            if fv {
                top = 2 * area.top + area.bottom - top - bottom;
            }
            out.push(Rect { left, top, right, bottom });
            proof {
                assert(out@[i as int] == (Rect { left, top, right, bottom }));
                assert((Rect { left, top, right, bottom }).region() == spec_finish(
                    baseseq[i as int],
                    delta_at(resize_dimensions@, i as int),
                    p as int,
                    area.region(),
                    layout_flip,
                ));
            }
            i = i + 1;
        }
        proof {
            assert(regions_of(out@) =~= spec_calculate(
                *self,
                area.region(),
                len as nat,
                container_padding,
                layout_flip,
                resize_dimensions@,
            ));
        }
        out
    }
}

/// The default number of pixels a resize moves an edge by.
pub const DEFAULT_RESIZE_STEP: i32 = 50;

/// A coordinate clamped to the coordinate limit, so that stored resize
/// deltas stay bounded however often they are adjusted.
pub open spec fn spec_clamp(x: int) -> int {
    if x < -(COORD_LIMIT as int) {
        -(COORD_LIMIT as int)
    } else if x > COORD_LIMIT as int {
        COORD_LIMIT as int
    } else {
        x
    }
}

pub(crate) fn clamp_coord(x: i32) -> (r: i32)
    ensures
        r as int == spec_clamp(x as int),
{
    if x < -COORD_LIMIT {
        -COORD_LIMIT
    } else if x > COORD_LIMIT {
        COORD_LIMIT
    } else {
        x
    }
}

/// The stored delta, or the neutral delta when none is stored yet.
pub open spec fn delta_or_zero(d: Option<Rect>) -> Region {
    match d {
        None => Region { left: 0, top: 0, right: 0, bottom: 0 },
        Some(d) => d.region(),
    }
}

/// The delta after one resize request: the edge named by `edge` moves
/// outward on `Increase` and inward on `Decrease` by `step` pixels, and
/// moving the left or top edge shifts the rectangle's origin with it.
pub open spec fn spec_resize_delta(
    cur: Region,
    edge: OperationDirection,
    sizing: Sizing,
    step: int,
) -> Region {
    let sgn = match sizing {
        Sizing::Increase => step,
        Sizing::Decrease => -step,
    };
    match edge {
        OperationDirection::Left => Region {
            left: spec_clamp(cur.left - sgn),
            top: cur.top,
            right: spec_clamp(cur.right + sgn),
            bottom: cur.bottom,
        },
        OperationDirection::Up => Region {
            left: cur.left,
            top: spec_clamp(cur.top - sgn),
            right: cur.right,
            bottom: spec_clamp(cur.bottom + sgn),
        },
        OperationDirection::Right => Region {
            left: cur.left,
            top: cur.top,
            right: spec_clamp(cur.right + sgn),
            bottom: cur.bottom,
        },
        OperationDirection::Down => Region {
            left: cur.left,
            top: cur.top,
            right: cur.right,
            bottom: spec_clamp(cur.bottom + sgn),
        },
    }
}

impl Layout {
    /// The new resize delta for a container after one resize request.
    ///
    /// Only the bisection layout supports per-container resizing; every
    /// other layout drops the stored delta.
    pub fn resize(
        &self,
        unaltered: &Rect,
        current_resize: &Option<Rect>,
        edge: OperationDirection,
        sizing: Sizing,
        step: Option<i32>,
    ) -> (r: Option<Rect>)
        requires
            delta_opt_ok(*current_resize),
            match step {
                Some(s) => 0 <= s <= COORD_LIMIT,
                None => true,
            },
        ensures
            match r {
                Some(d) => {
                    &&& *self == Layout::Bsp
                    &&& d.delta_ok()
                    &&& d.region() == spec_resize_delta(
                        delta_or_zero(*current_resize),
                        edge,
                        sizing,
                        match step {
                            Some(s) => s as int,
                            None => DEFAULT_RESIZE_STEP as int,
                        },
                    )
                },
                None => *self != Layout::Bsp,
            },
    {
        let _ = unaltered;
        if !matches!(self, Layout::Bsp) {
            return None;
        }
        let step_px: i32 = match step {
            Some(s) => s,
            None => DEFAULT_RESIZE_STEP,
        };
        let sgn: i32 = match sizing {
            Sizing::Increase => step_px,
            Sizing::Decrease => -step_px,
        };
        let mut d: Rect = match current_resize {
            Some(d) => *d,
            None => Rect { left: 0, top: 0, right: 0, bottom: 0 },
        };
        match edge {
            OperationDirection::Left => {
                d.left = clamp_coord(d.left - sgn);
                d.right = clamp_coord(d.right + sgn);
            },
            OperationDirection::Up => {
                d.top = clamp_coord(d.top - sgn);
                d.bottom = clamp_coord(d.bottom + sgn);
            },
            OperationDirection::Right => {
                d.right = clamp_coord(d.right + sgn);
            },
            OperationDirection::Down => {
                d.bottom = clamp_coord(d.bottom + sgn);
            },
        }
        Some(d)
    }
}

/// Every rectangle the layout computation produces is positionable: its
/// coordinates stay far inside the coordinate type, so the border
/// correction applied before the OS call cannot overflow.
pub proof fn lemma_calculate_positionable(
    l: Layout,
    a: Region,
    n: nat,
    cp: Option<i32>,
    f: Option<Flip>,
    ds: Seq<Option<Rect>>,
)
    requires
        n >= 1,
        a.ok(),
        forall|i: int| 0 <= i < ds.len() ==> delta_opt_ok(#[trigger] ds[i]),
        padding_ok(cp),
    ensures
        forall|i: int|
            0 <= i < spec_calculate(l, a, n, cp, f, ds).len() ==> (#[trigger] spec_calculate(
                l,
                a,
                n,
                cp,
                f,
                ds,
            )[i]).positionable(),
{
    lemma_base_ok(l, a, n);
    assert forall|i: int|
        0 <= i < spec_calculate(l, a, n, cp, f, ds).len() implies (#[trigger] spec_calculate(
        l,
        a,
        n,
        cp,
        f,
        ds,
    )[i]).positionable() by {
        let base = spec_base(l, a, n);
        assert(spec_calculate(l, a, n, cp, f, ds)[i] == spec_finish(
            base[i],
            delta_at(ds, i),
            pad_int(cp),
            a,
            f,
        ));
        assert(base[i].ok());
    }
}

/// The layout computation is a pure function: equal inputs give equal
/// outputs. Together with `Layout::calculate`'s contract, which pins its
/// result to `spec_calculate`, two calls on the same arguments return the
/// same rectangles.
pub proof fn lemma_calculate_pure(
    l1: Layout,
    a1: Region,
    n1: nat,
    cp1: Option<i32>,
    f1: Option<Flip>,
    ds1: Seq<Option<Rect>>,
    l2: Layout,
    a2: Region,
    n2: nat,
    cp2: Option<i32>,
    f2: Option<Flip>,
    ds2: Seq<Option<Rect>>,
)
    requires
        l1 == l2,
        a1 == a2,
        n1 == n2,
        cp1 == cp2,
        f1 == f2,
        ds1 == ds2,
    ensures
        spec_calculate(l1, a1, n1, cp1, f1, ds1) == spec_calculate(l2, a2, n2, cp2, f2, ds2),
{
}

} // verus!
