//! The output image: a `width x height` grid of colours held in an RGB
//! image of the `image` crate.

use vstd::prelude::*;
use crate::geometry::Dimensions;
use crate::pixel::Color;

verus! {

/// The sample at position `channel` of a colour: red, green, blue.
pub open spec fn channel_of(color: Color, channel: int) -> u8 {
    if channel == 0 {
        color.red
    } else if channel == 1 {
        color.green
    } else {
        color.blue
    }
}

/// The samples of a grid of colours: three per pixel, pixel after pixel.
pub open spec fn samples_of(grid: Seq<Color>) -> Seq<u8> {
    Seq::new(3 * grid.len(), |i: int| channel_of(grid[i / 3], i % 3))
}

/// Position of `(column, row)` in the row-by-row order of an image that is
/// `width` pixels wide.
pub open spec fn position(width: nat, column: nat, row: nat) -> int {
    (row * width + column) as int
}

/// The grid of an image that nothing was written to: `count` black pixels.
pub open spec fn blank_grid(count: nat) -> Seq<Color> {
    Seq::new(count, |i: int| Color::spec_black())
}

/// An RGB image of the `image` crate, `image::RgbImage`. The verifier does
/// not look inside; what it knows of a raster is what the functions of this
/// module say of its extent and its pixels.
#[verifier::external_body]
#[derive(Debug)]
pub struct Raster {
    image: image::RgbImage,
}

/// Width and height of a raster, in that order: what
/// `image::ImageBuffer::dimensions` gives.
pub uninterp spec fn raster_extent(raster: Raster) -> (nat, nat);

/// The pixels of a raster row by row: what `image::ImageBuffer::get_pixel`
/// gives for `(column, row)` stands at position `row * width + column`.
pub uninterp spec fn raster_pixels(raster: Raster) -> Seq<Color>;

/// `image::ImageBuffer::new`: an image of the given extent whose every
/// sample is zero, so every pixel is black. The call counts the samples as
/// three times the width, then times the height, and panics when either
/// product does not fit `usize`, or when the count is more than a vector can
/// hold; `requires` rules out all three. Like every allocation it ends the
/// process when memory runs out.
#[verifier::external_body]
fn blank_raster(width: u32, height: u32) -> (raster: Raster)
    requires
        3 * width <= usize::MAX,
        3 * width * height <= isize::MAX,
    ensures
        raster_extent(raster) == (width as nat, height as nat),
        raster_pixels(raster) == blank_grid((width * height) as nat),
{
    Raster { image: image::RgbImage::new(width, height) }
}

/// `image::ImageBuffer::put_pixel`: replaces the pixel at `(column, row)` and
/// nothing else. The call panics outside the image, which `requires` rules
/// out.
#[verifier::external_body]
fn store_pixel(raster: &mut Raster, column: u32, row: u32, color: Color)
    requires
        column < raster_extent(*old(raster)).0,
        row < raster_extent(*old(raster)).1,
    ensures
        raster_extent(*final(raster)) == raster_extent(*old(raster)),
        raster_pixels(*final(raster)) == raster_pixels(*old(raster)).update(
            position(raster_extent(*old(raster)).0, column as nat, row as nat),
            color,
        ),
{
    raster.image.put_pixel(column, row, image::Rgb([color.red, color.green, color.blue]));
}

/// `image::ImageBuffer::get_pixel`: the pixel at `(column, row)`. The call
/// panics outside the image, which `requires` rules out.
#[verifier::external_body]
fn load_pixel(raster: &Raster, column: u32, row: u32) -> (color: Color)
    requires
        column < raster_extent(*raster).0,
        row < raster_extent(*raster).1,
    ensures
        color == raster_pixels(*raster)[position(
            raster_extent(*raster).0,
            column as nat,
            row as nat,
        )],
{
    let pixel = raster.image.get_pixel(column, row);
    Color { red: pixel.0[0], green: pixel.0[1], blue: pixel.0[2] }
}

/// `image::ImageBuffer::into_raw`: the samples of the image, three per
/// pixel in the order red, green, blue, pixel after pixel.
#[verifier::external_body]
fn raster_into_samples(raster: Raster) -> (samples: Vec<u8>)
    ensures
        samples@ == samples_of(raster_pixels(raster)),
{
    raster.image.into_raw()
}

/// The grid `grid` after the colour at `(column, row)` was written; a
/// coordinate outside the image changes nothing.
pub open spec fn grid_put(
    dims: Dimensions,
    grid: Seq<Color>,
    column: nat,
    row: nat,
    color: Color,
) -> Seq<Color> {
    if dims.spec_contains(column, row) {
        grid.update(position(dims.spec_width(), column, row), color)
    } else {
        grid
    }
}

/// Inside the image, the position of a coordinate is an index of the grid,
/// and two coordinates share a position only if they are the same.
pub proof fn lemma_position_in_grid(dims: Dimensions, column: nat, row: nat)
    requires
        dims.wf(),
        dims.spec_contains(column, row),
    ensures
        0 <= position(dims.spec_width(), column, row) < dims.spec_pixel_count(),
        position(dims.spec_width(), column, row) % (dims.spec_width() as int) == column,
        position(dims.spec_width(), column, row) / (dims.spec_width() as int) == row,
{
    let w = dims.spec_width() as int;
    let h = dims.spec_height() as int;
    let c = column as int;
    let r = row as int;
    assert(r * w + c < w * h) by (nonlinear_arith)
        requires
            0 <= c < w,
            0 <= r < h,
    ;
    assert((r * w + c) % w == c && (r * w + c) / w == r) by (nonlinear_arith)
        requires
            0 <= c < w,
            0 <= r,
    ;
}

/// The output image of a run.
#[derive(Debug)]
pub struct OutputBuffer {
    dims: Dimensions,
    raster: Raster,
}

impl View for OutputBuffer {
    type V = Seq<Color>;

    /// The pixels row by row.
    closed spec fn view(&self) -> Seq<Color> {
        raster_pixels(self.raster)
    }
}

impl OutputBuffer {
    /// The dimensions of the image.
    pub closed spec fn spec_dims(self) -> Dimensions {
        self.dims
    }

    /// The image that holds the pixels.
    pub closed spec fn spec_raster(self) -> Raster {
        self.raster
    }

    /// The image has the extent of the dimensions and one pixel for each
    /// coordinate.
    pub open spec fn wf(self) -> bool {
        &&& self.spec_dims().wf()
        &&& raster_extent(self.spec_raster()) == (
            self.spec_dims().spec_width(),
            self.spec_dims().spec_height(),
        )
        &&& self@ == raster_pixels(self.spec_raster())
        &&& self@.len() == self.spec_dims().spec_pixel_count()
    }

    /// Whether an image of these dimensions can be allocated at all: its
    /// three samples per pixel must fit the largest vector.
    pub open spec fn allocatable(dims: Dimensions) -> bool {
        3 * dims.spec_pixel_count() <= isize::MAX
    }

    /// A black image of the given dimensions; `None` exactly when the
    /// dimensions are not [`OutputBuffer::allocatable`].
    pub fn new(dims: Dimensions) -> (r: Option<OutputBuffer>)
        ensures
            r.is_some() <==> OutputBuffer::allocatable(dims),
            r matches Some(buffer) ==> {
                &&& buffer.wf()
                &&& buffer.spec_dims() == dims
                &&& buffer@ == blank_grid(dims.spec_pixel_count())
            },
    {
        let count: u64 = dims.pixel_count();
        if (count as u128) * 3 <= (isize::MAX as u128) {
            let width: u32 = dims.width();
            let height: u32 = dims.height();
            proof {
                assert(3 * width * height == 3 * (width * height)) by (nonlinear_arith);
                assert(3 * width <= 3 * width * height) by (nonlinear_arith)
                    requires
                        height >= 1,
                ;
            }
            let raster = blank_raster(width, height);
            Some(OutputBuffer { dims, raster })
        } else {
            None
        }
    }

    /// The dimensions of the image.
    pub fn dims(&self) -> (d: Dimensions)
        ensures
            d == self.spec_dims(),
    {
        self.dims
    }

    /// Writes `color` at `(column, row)` if the coordinate lies inside the
    /// image and says whether it did; outside, the buffer stays as it is.
    pub fn put(&mut self, column: u32, row: u32, color: Color) -> (stored: bool)
        requires
            old(self).wf(),
        ensures
            final(self).wf(),
            stored == old(self).spec_dims().spec_contains(column as nat, row as nat),
            final(self).spec_dims() == old(self).spec_dims(),
            final(self)@ == grid_put(
                old(self).spec_dims(),
                old(self)@,
                column as nat,
                row as nat,
                color,
            ),
    {
        if self.dims.contains(column, row) {
            proof {
                lemma_position_in_grid(self.dims, column as nat, row as nat);
            }
            store_pixel(&mut self.raster, column, row, color);
            true
        } else {
            false
        }
    }

    /// The colour at `(column, row)`; `None` exactly when the coordinate
    /// lies outside the image.
    pub fn get(&self, column: u32, row: u32) -> (r: Option<Color>)
        requires
            self.wf(),
        ensures
            r.is_some() <==> self.spec_dims().spec_contains(column as nat, row as nat),
            r matches Some(color) ==> color == self@[position(
                self.spec_dims().spec_width(),
                column as nat,
                row as nat,
            )],
    {
        if self.dims.contains(column, row) {
            Some(load_pixel(&self.raster, column, row))
        } else {
            None
        }
    }

    /// Hands the samples of the image out, for an encoder to write: three
    /// bytes per pixel, row by row.
    pub fn into_samples(self) -> (samples: Vec<u8>)
        requires
            self.wf(),
        ensures
            samples@ == samples_of(self@),
    {
        raster_into_samples(self.raster)
    }
}

} // verus!
