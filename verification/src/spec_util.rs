//! Shared mathematical helpers for pixel buffers: grid coordinates,
//! counting over index ranges and tight bounding boxes.

use vstd::prelude::*;
use vstd::arithmetic::div_mod::{
    lemma_fundamental_div_mod_converse, lemma_fundamental_div_mod, lemma_mod_pos_bound,
};

verus! {

/// Number of indices `i` in `[0, n)` satisfying `pred`.
pub open spec fn count_where(n: int, pred: spec_fn(int) -> bool) -> nat
    decreases n,
{
    if n <= 0 {
        0
    } else {
        count_where(n - 1, pred) + if pred(n - 1) { 1nat } else { 0nat }
    }
}

/// A count over `[0, n)` never exceeds `n`.
pub proof fn lemma_count_le(n: int, pred: spec_fn(int) -> bool)
    requires
        0 <= n,
    ensures
        count_where(n, pred) <= n,
    decreases n,
{
    if n > 0 {
        lemma_count_le(n - 1, pred);
    }
}

/// Products of naturals are naturals.
pub proof fn lemma_mul_nonneg(a: int, b: int)
    requires
        0 <= a,
        0 <= b,
    ensures
        0 <= a * b,
{
    assert(0 <= a * b) by (nonlinear_arith)
        requires
            0 <= a,
            0 <= b,
    ;
}

/// Grid position `(x, y)` of a width-`w` grid maps to index `y * w + x`, and back.
pub proof fn lemma_grid_index(x: int, y: int, w: int, h: int)
    requires
        0 <= x < w,
        0 <= y < h,
    ensures
        0 <= y * w + x < w * h,
        (y * w + x) % w == x,
        (y * w + x) / w == y,
        (y * w + x) * 4 + 4 <= w * h * 4,
{
    assert(y * w + x < w * h) by (nonlinear_arith)
        requires
            0 <= x < w,
            0 <= y < h,
    ;
    assert(0 <= y * w) by (nonlinear_arith)
        requires
            0 <= y,
            0 <= w,
    ;
    lemma_fundamental_div_mod_converse(y * w + x, w, y, x);
}

/// An index of a width-`w` grid with `h` rows decomposes into an in-range position.
pub proof fn lemma_grid_coords(p: int, w: int, h: int)
    requires
        0 <= p < w * h,
        w > 0,
    ensures
        0 <= p % w < w,
        0 <= p / w < h,
        p == (p / w) * w + p % w,
{
    lemma_fundamental_div_mod(p, w);
    lemma_mod_pos_bound(p, w);
    assert((p / w) * w == w * (p / w)) by (nonlinear_arith);
    let q = p / w;
    let r = p % w;
    assert(0 <= q < h) by (nonlinear_arith)
        requires
            p == q * w + r,
            0 <= r < w,
            0 <= p < w * h,
    ;
}

/// The smallest box `[l, r) x [t, b)` (in grid coordinates of a width-`w` grid)
/// containing every index `p < n` with `hit(p)`, or all zeros when there is none.
pub open spec fn tight_box(
    hit: spec_fn(int) -> bool,
    n: int,
    w: int,
    l: int,
    t: int,
    r: int,
    b: int,
) -> bool {
    if exists|p: int| 0 <= p < n && #[trigger] hit(p) {
        &&& forall|p: int|
            0 <= p < n && #[trigger] hit(p) ==> l <= p % w && p % w < r && t <= p / w && p / w < b
        &&& exists|p: int| 0 <= p < n && #[trigger] hit(p) && p % w == l
        &&& exists|p: int| 0 <= p < n && #[trigger] hit(p) && p % w + 1 == r
        &&& exists|p: int| 0 <= p < n && #[trigger] hit(p) && p / w == t
        &&& exists|p: int| 0 <= p < n && #[trigger] hit(p) && p / w + 1 == b
    } else {
        l == 0 && t == 0 && r == 0 && b == 0
    }
}

/// A tight box is unique.
pub proof fn lemma_tight_box_unique(
    hit: spec_fn(int) -> bool,
    n: int,
    w: int,
    l1: int,
    t1: int,
    r1: int,
    b1: int,
    l2: int,
    t2: int,
    r2: int,
    b2: int,
)
    requires
        tight_box(hit, n, w, l1, t1, r1, b1),
        tight_box(hit, n, w, l2, t2, r2, b2),
    ensures
        l1 == l2 && t1 == t2 && r1 == r2 && b1 == b2,
{
    if exists|p: int| 0 <= p < n && #[trigger] hit(p) {
        let pl1 = choose|p: int| 0 <= p < n && #[trigger] hit(p) && p % w == l1;
        let pl2 = choose|p: int| 0 <= p < n && #[trigger] hit(p) && p % w == l2;
        let pr1 = choose|p: int| 0 <= p < n && #[trigger] hit(p) && p % w + 1 == r1;
        let pr2 = choose|p: int| 0 <= p < n && #[trigger] hit(p) && p % w + 1 == r2;
        let pt1 = choose|p: int| 0 <= p < n && #[trigger] hit(p) && p / w == t1;
        let pt2 = choose|p: int| 0 <= p < n && #[trigger] hit(p) && p / w == t2;
        let pb1 = choose|p: int| 0 <= p < n && #[trigger] hit(p) && p / w + 1 == b1;
        let pb2 = choose|p: int| 0 <= p < n && #[trigger] hit(p) && p / w + 1 == b2;
        assert(hit(pl1) && hit(pl2) && hit(pr1) && hit(pr2));
        assert(hit(pt1) && hit(pt2) && hit(pb1) && hit(pb2));
    }
}

/// The tight box `(l, t, r, b)` of the hits among `[0, n)` on a width-`w` grid.
pub open spec fn tight_box_of(hit: spec_fn(int) -> bool, n: int, w: int) -> (int, int, int, int) {
    choose|b: (int, int, int, int)| tight_box(hit, n, w, b.0, b.1, b.2, b.3)
}

/// A box meeting the tight-box specification is the tight box.
pub proof fn lemma_tight_box_of(hit: spec_fn(int) -> bool, n: int, w: int, l: int, t: int, r: int, b: int)
    requires
        tight_box(hit, n, w, l, t, r, b),
    ensures
        tight_box_of(hit, n, w) == (l, t, r, b),
{
    let wit = (l, t, r, b);
    assert(tight_box(hit, n, w, wit.0, wit.1, wit.2, wit.3));
    let c = tight_box_of(hit, n, w);
    assert(tight_box(hit, n, w, c.0, c.1, c.2, c.3));
    lemma_tight_box_unique(hit, n, w, c.0, c.1, c.2, c.3, l, t, r, b);
}

/// Running extent of the hits seen so far while scanning a grid.
pub struct BoxAcc {
    pub min_x: u16,
    pub min_y: u16,
    pub max_x: u16,
    pub max_y: u16,
    pub found: bool,
}

impl BoxAcc {
    /// The accumulator summarizes the hits among indices `[0, k)` of a
    /// `w x h` grid.
    pub open spec fn inv(self, hit: spec_fn(int) -> bool, k: int, w: int, h: int) -> bool {
        &&& (self.found <==> exists|p: int| 0 <= p < k && #[trigger] hit(p))
        &&& self.found ==> {
            &&& forall|p: int|
                0 <= p < k && #[trigger] hit(p) ==> self.min_x <= p % w && p % w < self.max_x
                    && self.min_y <= p / w && p / w < self.max_y
            &&& exists|p: int| 0 <= p < k && #[trigger] hit(p) && p % w == self.min_x
            &&& exists|p: int| 0 <= p < k && #[trigger] hit(p) && p % w + 1 == self.max_x
            &&& exists|p: int| 0 <= p < k && #[trigger] hit(p) && p / w == self.min_y
            &&& exists|p: int| 0 <= p < k && #[trigger] hit(p) && p / w + 1 == self.max_y
        }
        &&& !self.found ==> self.min_x == w && self.min_y == h && self.max_x == 0
            && self.max_y == 0
    }

    /// An empty accumulator for a `w x h` grid.
    pub fn new(w: u16, h: u16) -> (r: BoxAcc)
        ensures
            r.min_x == w,
            r.min_y == h,
            r.max_x == 0,
            r.max_y == 0,
            !r.found,
    {
        BoxAcc { min_x: w, min_y: h, max_x: 0, max_y: 0, found: false }
    }

    /// Record a hit at grid position `(x, y)`.
    pub fn add(&mut self, x: u16, y: u16)
        requires
            x < u16::MAX,
            y < u16::MAX,
        ensures
            final(self).min_x == if x < old(self).min_x { x } else { old(self).min_x },
            final(self).min_y == if y < old(self).min_y { y } else { old(self).min_y },
            final(self).max_x == if x + 1 > old(self).max_x { (x + 1) as u16 } else { old(self).max_x },
            final(self).max_y == if y + 1 > old(self).max_y { (y + 1) as u16 } else { old(self).max_y },
            final(self).found,
    {
        if x < self.min_x {
            self.min_x = x;
        }
        if y < self.min_y {
            self.min_y = y;
        }
        if x + 1 > self.max_x {
            self.max_x = x + 1;
        }
        if y + 1 > self.max_y {
            self.max_y = y + 1;
        }
        self.found = true;
    }

    /// Scanning index `k` (a hit or not) extends the summary to `[0, k + 1)`.
    pub proof fn lemma_step(
        a: BoxAcc,
        b: BoxAcc,
        hit: spec_fn(int) -> bool,
        k: int,
        w: int,
        h: int,
    )
        requires
            a.inv(hit, k, w, h),
            0 <= k < w * h,
            w > 0,
            hit(k) ==> {
                &&& b.found
                &&& b.min_x == if k % w < a.min_x { k % w } else { a.min_x as int }
                &&& b.min_y == if k / w < a.min_y { k / w } else { a.min_y as int }
                &&& b.max_x == if k % w + 1 > a.max_x { k % w + 1 } else { a.max_x as int }
                &&& b.max_y == if k / w + 1 > a.max_y { k / w + 1 } else { a.max_y as int }
            },
            !hit(k) ==> b == a,
        ensures
            b.inv(hit, k + 1, w, h),
    {
        lemma_grid_coords(k, w, h);
        if hit(k) {
            if !a.found {
                assert(forall|p: int| 0 <= p < k ==> !#[trigger] hit(p));
                assert forall|p: int| 0 <= p < k + 1 && #[trigger] hit(p) implies b.min_x <= p % w
                    && p % w < b.max_x && b.min_y <= p / w && p / w < b.max_y by {
                    assert(p == k);
                }
                assert(hit(k) && k % w == b.min_x);
            } else {
                let p1 = choose|p: int| 0 <= p < k && #[trigger] hit(p) && p % w == a.min_x;
                let p2 = choose|p: int| 0 <= p < k && #[trigger] hit(p) && p % w + 1 == a.max_x;
                let p3 = choose|p: int| 0 <= p < k && #[trigger] hit(p) && p / w == a.min_y;
                let p4 = choose|p: int| 0 <= p < k && #[trigger] hit(p) && p / w + 1 == a.max_y;
                assert(hit(p1) && hit(p2) && hit(p3) && hit(p4));
                if k % w < a.min_x {
                    assert(hit(k) && k % w == b.min_x);
                } else {
                    assert(p1 % w == b.min_x);
                }
                if k % w + 1 > a.max_x {
                    assert(hit(k) && k % w + 1 == b.max_x);
                } else {
                    assert(p2 % w + 1 == b.max_x);
                }
                if k / w < a.min_y {
                    assert(hit(k) && k / w == b.min_y);
                } else {
                    assert(p3 / w == b.min_y);
                }
                if k / w + 1 > a.max_y {
                    assert(hit(k) && k / w + 1 == b.max_y);
                } else {
                    assert(p4 / w + 1 == b.max_y);
                }
            }
        } else {
            assert forall|p: int| 0 <= p < k + 1 && #[trigger] hit(p) implies 0 <= p < k by {}
            if a.found {
                let p1 = choose|p: int| 0 <= p < k && #[trigger] hit(p) && p % w == a.min_x;
                let p2 = choose|p: int| 0 <= p < k && #[trigger] hit(p) && p % w + 1 == a.max_x;
                let p3 = choose|p: int| 0 <= p < k && #[trigger] hit(p) && p / w == a.min_y;
                let p4 = choose|p: int| 0 <= p < k && #[trigger] hit(p) && p / w + 1 == a.max_y;
                assert(hit(p1) && hit(p2) && hit(p3) && hit(p4));
            }
        }
    }

    /// A summary of the whole grid yields its tight box.
    pub proof fn lemma_done(a: BoxAcc, hit: spec_fn(int) -> bool, n: int, w: int, h: int)
        requires
            a.inv(hit, n, w, h),
        ensures
            a.found ==> tight_box(hit, n, w, a.min_x as int, a.min_y as int, a.max_x as int, a.max_y as int),
            !a.found ==> tight_box(hit, n, w, 0, 0, 0, 0),
    {
        if a.found {
            let p1 = choose|p: int| 0 <= p < n && #[trigger] hit(p) && p % w == a.min_x;
            assert(hit(p1));
        }
    }
}

/// A summary of the hits among `[0, k)` exists for every `k` up to the grid size.
pub proof fn lemma_box_acc_exists(hit: spec_fn(int) -> bool, k: int, w: int, h: int) -> (a: BoxAcc)
    requires
        0 <= k <= w * h,
        0 < w <= u16::MAX,
        0 <= h <= u16::MAX,
    ensures
        a.inv(hit, k, w, h),
    decreases k,
{
    if k == 0 {
        BoxAcc { min_x: w as u16, min_y: h as u16, max_x: 0, max_y: 0, found: false }
    } else {
        let a = lemma_box_acc_exists(hit, k - 1, w, h);
        lemma_grid_coords(k - 1, w, h);
        let x = (k - 1) % w;
        let y = (k - 1) / w;
        let b = if hit(k - 1) {
            BoxAcc {
                min_x: if x < a.min_x { x as u16 } else { a.min_x },
                min_y: if y < a.min_y { y as u16 } else { a.min_y },
                max_x: if x + 1 > a.max_x { (x + 1) as u16 } else { a.max_x },
                max_y: if y + 1 > a.max_y { (y + 1) as u16 } else { a.max_y },
                found: true,
            }
        } else {
            a
        };
        BoxAcc::lemma_step(a, b, hit, k - 1, w, h);
        b
    }
}

/// Every set of hits on a grid has a tight box.
pub proof fn lemma_tight_box_exists(hit: spec_fn(int) -> bool, w: int, h: int)
    requires
        0 <= w <= u16::MAX,
        0 <= h <= u16::MAX,
    ensures
        ({
            let b = tight_box_of(hit, w * h, w);
            tight_box(hit, w * h, w, b.0, b.1, b.2, b.3)
        }),
{
    if w == 0 {
        assert(w * h == 0);
        lemma_tight_box_of(hit, w * h, w, 0, 0, 0, 0);
    } else {
        let a = lemma_box_acc_exists(hit, w * h, w, h);
        BoxAcc::lemma_done(a, hit, w * h, w, h);
        if a.found {
            lemma_tight_box_of(hit, w * h, w, a.min_x as int, a.min_y as int, a.max_x as int, a.max_y as int);
        } else {
            lemma_tight_box_of(hit, w * h, w, 0, 0, 0, 0);
        }
    }
}

} // verus!
