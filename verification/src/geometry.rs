//! Image dimensions and the mapping from a linear pixel index to a
//! coordinate.

use vstd::prelude::*;

verus! {

/// Width and height of the output image, both positive.
#[derive(Clone, Copy, Debug, PartialEq, Eq)]
pub struct Dimensions {
    width: u32,
    height: u32,
}

/// A pixel position: `column` counts along the width, `row` along the height.
#[derive(Clone, Copy, Debug, PartialEq, Eq, Structural)]
pub struct Coordinate {
    pub column: u32,
    pub row: u32,
}

impl Dimensions {
    /// The width, as a mathematical integer.
    pub closed spec fn spec_width(self) -> nat {
        self.width as nat
    }

    /// The height, as a mathematical integer.
    pub closed spec fn spec_height(self) -> nat {
        self.height as nat
    }

    /// Both sides are positive and fit the machine type that holds them.
    #[verifier::type_invariant]
    pub open spec fn wf(self) -> bool {
        &&& 0 < self.spec_width() <= u32::MAX
        &&& 0 < self.spec_height() <= u32::MAX
    }

    /// Total number of pixels, `width * height`.
    pub open spec fn spec_pixel_count(self) -> nat {
        self.spec_width() * self.spec_height()
    }

    /// Column of the pixel with linear index `index`: `index div width`.
    pub open spec fn column_of(self, index: nat) -> nat {
        index / self.spec_width()
    }

    /// Row of the pixel with linear index `index`: `index mod height`.
    pub open spec fn row_of(self, index: nat) -> nat {
        index % self.spec_height()
    }

    /// Whether `(column, row)` lies inside `[0, width) x [0, height)`.
    pub open spec fn spec_contains(self, column: nat, row: nat) -> bool {
        column < self.spec_width() && row < self.spec_height()
    }

    /// Builds the dimensions of an image; `None` exactly when a side is zero.
    pub fn new(width: u32, height: u32) -> (r: Option<Dimensions>)
        ensures
            r.is_some() <==> (width > 0 && height > 0),
            r matches Some(d) ==> d.wf() && d.spec_width() == width && d.spec_height() == height,
    {
        if width > 0 && height > 0 {
            Some(Dimensions { width, height })
        } else {
            None
        }
    }

    /// The width in pixels.
    pub fn width(&self) -> (w: u32)
        ensures
            w == self.spec_width(),
            w > 0,
    {
        proof {
            use_type_invariant(self);
        }
        self.width
    }

    /// The height in pixels.
    pub fn height(&self) -> (h: u32)
        ensures
            h == self.spec_height(),
            h > 0,
    {
        proof {
            use_type_invariant(self);
        }
        self.height
    }

    /// Total number of pixels. The product of two `u32` always fits in `u64`.
    pub fn pixel_count(&self) -> (n: u64)
        ensures
            n == self.spec_pixel_count(),
            n > 0,
    {
        proof {
            use_type_invariant(self);
            assert(0 < self.width * self.height <= 0xFFFF_FFFF * 0xFFFF_FFFF) by (nonlinear_arith)
                requires
                    0 < self.width <= 0xFFFF_FFFF,
                    0 < self.height <= 0xFFFF_FFFF,
            ;
        }
        (self.width as u64) * (self.height as u64)
    }

    /// Whether `(column, row)` lies inside the image.
    pub fn contains(&self, column: u32, row: u32) -> (inside: bool)
        ensures
            inside == self.spec_contains(column as nat, row as nat),
    {
        column < self.width && row < self.height
    }

    /// Maps the linear index of a pixel to its coordinate:
    /// `column = index div width`, `row = index mod height`.
    ///
    /// The divisor is the width and the modulus is the height, so on a
    /// non-square image some indices fall outside the image and some
    /// coordinates are hit more than once; see [`Dimensions::contains`].
    pub fn locate(&self, index: u64) -> (at: Coordinate)
        requires
            index < self.spec_pixel_count(),
        ensures
            at.column == self.column_of(index as nat),
            at.row == self.row_of(index as nat),
    {
        proof {
            use_type_invariant(self);
            lemma_locate_bounds(*self, index as nat);
        }
        let column: u64 = index / (self.width as u64);
        let row: u64 = index % (self.height as u64);
        Coordinate { column: column as u32, row: row as u32 }
    }
}

/// For every index below the pixel count, the column and the row are both
/// smaller than the height. The row therefore always lies inside the image;
/// the column does whenever the image is at least as wide as it is high.
pub proof fn lemma_locate_bounds(dims: Dimensions, index: nat)
    requires
        dims.wf(),
        index < dims.spec_pixel_count(),
    ensures
        dims.column_of(index) < dims.spec_height(),
        dims.row_of(index) < dims.spec_height(),
{
    let w = dims.spec_width() as int;
    let h = dims.spec_height() as int;
    let i = index as int;
    assert(i / w < h) by (nonlinear_arith)
        requires
            0 <= i < w * h,
            0 < w,
            0 < h,
    ;
    assert(0 <= i % h < h) by (nonlinear_arith)
        requires
            0 <= i,
            0 < h,
    ;
}

/// On a square image the mapping is one to one onto the image: every index
/// below the pixel count lands inside, and two indices with the same
/// coordinate are the same index.
pub proof fn lemma_square_locate_is_one_to_one(dims: Dimensions, first: nat, second: nat)
    requires
        dims.wf(),
        dims.spec_width() == dims.spec_height(),
        first < dims.spec_pixel_count(),
        second < dims.spec_pixel_count(),
    ensures
        dims.spec_contains(dims.column_of(first), dims.row_of(first)),
        (dims.column_of(first) == dims.column_of(second) && dims.row_of(first) == dims.row_of(
            second,
        )) ==> first == second,
{
    let w = dims.spec_width() as int;
    let i = first as int;
    let j = second as int;
    lemma_locate_bounds(dims, first);
    assert(i == w * (i / w) + i % w) by (nonlinear_arith)
        requires
            0 < w,
    ;
    assert(j == w * (j / w) + j % w) by (nonlinear_arith)
        requires
            0 < w,
    ;
}

} // verus!
