//! The order in which pixels are produced: rows from the top of the image
//! down, pixels of a row from left to right. Row 0 is the bottom row.

use vstd::prelude::*;

verus! {

/// The pixel `(x, y)` at position `i` of the order, for a `w` by `h` image.
pub open spec fn pixel_at(w: nat, h: nat, i: nat) -> (nat, nat) {
    (i % w, (h - 1 - i / w) as nat)
}

/// The pixels of a `w` by `h` image, in the order they are written.
pub fn raster_order(w: u32, h: u32) -> (r: Vec<(u32, u32)>)
    requires
        w * h <= usize::MAX,
    ensures
        r@.len() == w * h,
        forall|i: int|
            0 <= i < r@.len() ==> {
                let (x, y) = #[trigger] r@[i];
                (x as nat, y as nat) == pixel_at(w as nat, h as nat, i as nat)
            },
{
    let mut out: Vec<(u32, u32)> = Vec::new();
    let mut row: u32 = h;
    while row > 0
        invariant
            row <= h,
            out@.len() == (h - row) * w,
            forall|i: int|
                0 <= i < out@.len() ==> {
                    let (x, y) = #[trigger] out@[i];
                    (x as nat, y as nat) == pixel_at(w as nat, h as nat, i as nat)
                },
        decreases row,
    {
        let y: u32 = row - 1;
        let mut x: u32 = 0;
        while x < w
            invariant
                row <= h,
                y == row - 1,
                x <= w,
                out@.len() == (h - row) * w + x,
                forall|i: int|
                    0 <= i < out@.len() ==> {
                        let (px, py) = #[trigger] out@[i];
                        (px as nat, py as nat) == pixel_at(w as nat, h as nat, i as nat)
                    },
            decreases w - x,
        {
            proof {
                let n = out@.len() as int;
                let k = (h - row) as int;
                assert(n % (w as int) == x && n / (w as int) == k) by (nonlinear_arith)
                    requires
                        n == k * w + x,
                        0 <= x < w,
                        0 <= k,
                ;
            }
            out.push((x, y));
            x = x + 1;
        }
        proof {
            assert((h - row) * w + w == (h - (row - 1)) * w) by (nonlinear_arith)
                requires
                    row >= 1,
                    row <= h,
            ;
        }
        row = row - 1;
    }
    assert(h * w == w * h) by (nonlinear_arith);
    out
}

/// Every pixel of the image comes at exactly one position of the order.
pub proof fn lemma_each_pixel_once(w: nat, h: nat, x: nat, y: nat)
    requires
        x < w,
        y < h,
    ensures
        ({
            let i = ((h - 1 - y) * w + x) as nat;
            &&& i < w * h
            &&& pixel_at(w, h, i) == (x, y)
        }),
        forall|j: nat| j < w * h && pixel_at(w, h, j) == (x, y) ==> j == (h - 1 - y) * w + x,
{
    let k = (h - 1 - y) as int;
    let i = k * w + x;
    assert(i % (w as int) == x && i / (w as int) == k && i < w * h) by (nonlinear_arith)
        requires
            i == k * w + x,
            0 <= x < w,
            0 <= k < h,
    ;
    assert forall|j: nat| j < w * h && pixel_at(w, h, j) == (x, y) implies j == (h - 1 - y) * w
        + x by {
        let q = j / w;
        assert(j == q * w + j % w && q < h) by (nonlinear_arith)
            requires
                w > 0,
                q == j / w,
                j < w * h,
        ;
    }
}

} // verus!
