//! Convolution kernels: which neighbours of a pixel are sampled, and with
//! what weight.

use vstd::prelude::*;
use vstd::arithmetic::div_mod::lemma_fundamental_div_mod_converse;

verus! {

/// The kinds of kernel. Each kind expands to a list of offsets with weights;
/// nothing else about a kernel is seen by the code that applies it.
#[derive(Clone, Copy, Debug, PartialEq, Eq, Structural)]
pub enum Kernel {
    /// A square box of the given radius, every offset with weight one.
    BoxBlur(i32),
}

/// The `k`-th sample of a box of radius `radius`, columns first: the column
/// offset advances once the row offsets of a column are used up.
pub open spec fn box_offset(radius: int, k: int) -> (i32, i32, u8) {
    ((k / (2 * radius) - radius) as i32, (k % (2 * radius) - radius) as i32, 1u8)
}

/// The samples of a box of radius `radius`: `dx` runs over `[-radius, radius)`
/// and, for each `dx`, `dy` runs over the same range, so the box is
/// `2 * radius` wide and the offset `+radius` is left out on both axes. A
/// radius of zero or less gives no samples.
pub open spec fn box_offsets(radius: int) -> Seq<(i32, i32, u8)> {
    if radius <= 0 {
        Seq::empty()
    } else {
        Seq::new(((2 * radius) * (2 * radius)) as nat, |k: int| box_offset(radius, k))
    }
}

/// The place of the offsets `(dx, dy)` in the list of a box of radius `radius`.
pub open spec fn box_place(radius: int, dx: int, dy: int) -> int {
    (dx + radius) * (2 * radius) + (dy + radius)
}

impl Kernel {
    /// The kernel yields at least one sample.
    pub open spec fn is_usable(self) -> bool {
        match self {
            Kernel::BoxBlur(radius) => radius > 0,
        }
    }

    /// The samples of the kernel as `(dx, dy, weight)`, in the order in which
    /// they are taken.
    pub open spec fn samples(self) -> Seq<(i32, i32, u8)> {
        match self {
            Kernel::BoxBlur(radius) => box_offsets(radius as int),
        }
    }

    /// A box kernel, if the radius is positive.
    pub fn box_blur(radius: i32) -> (made: Option<Kernel>)
        ensures
            made == if radius > 0 {
                Some(Kernel::BoxBlur(radius))
            } else {
                None
            },
            made matches Some(kernel) ==> kernel.is_usable(),
    {
        if radius > 0 {
            Some(Kernel::BoxBlur(radius))
        } else {
            None
        }
    }

    /// Whether the kernel yields at least one sample.
    pub fn usable(&self) -> (yes: bool)
        ensures
            yes == self.is_usable(),
    {
        match *self {
            Kernel::BoxBlur(radius) => radius > 0,
        }
    }

    /// Expands the kernel to its list of `(dx, dy, weight)`.
    pub fn offsets(&self) -> (list: Vec<(i32, i32, u8)>)
        ensures
            list@ == self.samples(),
    {
        match *self {
            Kernel::BoxBlur(radius) => box_blur_offsets(radius),
        }
    }
}

fn box_blur_offsets(rad: i32) -> (list: Vec<(i32, i32, u8)>)
    ensures
        list@ == box_offsets(rad as int),
{
    let mut list: Vec<(i32, i32, u8)> = Vec::new();
    if rad <= 0 {
        assert(list@ =~= box_offsets(rad as int));
        return list;
    }
    let ghost side = 2 * rad as int;
    let mut x: i32 = -rad;
    assert((x + rad) * side == 0) by (nonlinear_arith)
        requires
            x + rad == 0,
    ;
    while x < rad
        invariant
            rad > 0,
            side == 2 * rad,
            -rad <= x <= rad,
            list@.len() == (x + rad) * side,
            forall|k: int| 0 <= k < list@.len() ==> list@[k] == box_offset(rad as int, k),
        decreases rad - x,
    {
        let mut y: i32 = -rad;
        while y < rad
            invariant
                rad > 0,
                side == 2 * rad,
                -rad <= x < rad,
                -rad <= y <= rad,
                list@.len() == (x + rad) * side + (y + rad),
                forall|k: int| 0 <= k < list@.len() ==> list@[k] == box_offset(rad as int, k),
            decreases rad - y,
        {
            proof {
                let k = list@.len() as int;
                lemma_fundamental_div_mod_converse(k, side, x + rad, y + rad);
            }
            list.push((x, y, 1));
            y = y + 1;
        }
        assert((x + rad) * side + side == (x + 1 + rad) * side) by (nonlinear_arith);
        x = x + 1;
    }
    assert(list@ =~= box_offsets(rad as int));
    list
}

/// A usable kernel yields samples, and only a usable one does.
pub proof fn lemma_usable_means_samples(kernel: Kernel)
    ensures
        kernel.is_usable() <==> kernel.samples().len() > 0,
{
    match kernel {
        Kernel::BoxBlur(radius) => {
            let r = radius as int;
            if r > 0 {
                assert((2 * r) * (2 * r) > 0) by (nonlinear_arith)
                    requires
                        r > 0,
                ;
            }
        },
    }
}

/// A box of radius `radius` has `(2 * radius)` squared samples, each of
/// weight one and with both offsets in `[-radius, radius)`; and each pair of
/// offsets in that range is the sample at its place in the list.
pub proof fn lemma_box_covers_square(radius: i32)
    requires
        radius > 0,
    ensures
        box_offsets(radius as int).len() == (2 * radius) * (2 * radius),
        forall|k: int|
            0 <= k < box_offsets(radius as int).len() ==> {
                let s = #[trigger] box_offsets(radius as int)[k];
                -radius <= s.0 < radius && -radius <= s.1 < radius && s.2 == 1
            },
        forall|dx: int, dy: int|
            -radius <= dx < radius && -radius <= dy < radius ==> {
                let k = #[trigger] box_place(radius as int, dx, dy);
                0 <= k < box_offsets(radius as int).len() && box_offsets(radius as int)[k] == (
                    dx as i32,
                    dy as i32,
                    1u8,
                )
            },
{
    let r = radius as int;
    let side = 2 * r;
    assert forall|k: int| 0 <= k < box_offsets(r).len() implies {
        let s = #[trigger] box_offsets(r)[k];
        -radius <= s.0 < radius && -radius <= s.1 < radius && s.2 == 1
    } by {
        vstd::arithmetic::div_mod::lemma_fundamental_div_mod(k, side);
        vstd::arithmetic::div_mod::lemma_mod_bound(k, side);
        let q = k / side;
        assert(0 <= q < side) by (nonlinear_arith)
            requires
                0 <= k < side * side,
                side > 0,
                k == side * q + k % side,
                0 <= k % side < side,
        ;
    }
    assert forall|dx: int, dy: int| -radius <= dx < radius && -radius <= dy < radius implies {
        let k = #[trigger] box_place(r, dx, dy);
        0 <= k < box_offsets(r).len() && box_offsets(r)[k] == (dx as i32, dy as i32, 1u8)
    } by {
        let k = (dx + r) * side + (dy + r);
        assert(0 <= k < side * side) by (nonlinear_arith)
            requires
                0 <= dx + r < side,
                0 <= dy + r < side,
                k == (dx + r) * side + (dy + r),
        ;
        lemma_fundamental_div_mod_converse(k, side, dx + r, dy + r);
    }
}

} // verus!
