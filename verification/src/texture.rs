use vstd::prelude::*;

verus! {

/// The number of bytes that one pixel takes: red, green and blue.
pub const CHANNELS: usize = 3;

/// A raster of 8-bit RGB pixels, stored row by row from the top.
///
/// The pixels live in an `image::RgbImage`, which is opaque to the verifier:
/// what the contracts below know of it is named by [`image_size`] and
/// [`image_bytes`].
#[verifier::external_body]
pub struct Image {
    image: image::RgbImage,
}

/// Width and height, in pixels, of the raster inside `image`.
pub uninterp spec fn image_size(image: Image) -> (u32, u32);

/// The raw buffer of the raster inside `image`.
pub uninterp spec fn image_bytes(image: Image) -> Seq<u8>;

/// What an [`Image`] holds, as plain values.
pub struct ImageView {
    pub width: u32,
    pub height: u32,
    pub bytes: Seq<u8>,
}

impl ImageView {
    /// The position in `bytes` of the first channel of pixel `(x, y)`.
    pub open spec fn offset(self, x: u32, y: u32) -> int {
        (y * self.width + x) * CHANNELS
    }

    /// The three channels of pixel `(x, y)`.
    pub open spec fn pixel(self, x: u32, y: u32) -> Seq<u8> {
        self.bytes.subrange(self.offset(x, y), self.offset(x, y) + CHANNELS)
    }

    /// Whether `bytes` is long enough to hold every pixel.
    pub open spec fn holds_every_pixel(self) -> bool {
        CHANNELS * self.width * self.height <= self.bytes.len()
    }
}

impl View for Image {
    type V = ImageView;

    open spec fn view(&self) -> ImageView {
        ImageView {
            width: image_size(*self).0,
            height: image_size(*self).1,
            bytes: image_bytes(*self),
        }
    }
}

/// Whether a buffer of `len` bytes can back a raster of `width` by `height`
/// pixels: the bytes of one row and of all rows can be counted in a `usize`,
/// and the buffer has that many.
pub open spec fn buffer_fits(width: u32, height: u32, len: nat) -> bool {
    &&& CHANNELS * width <= usize::MAX
    &&& CHANNELS * width * height <= usize::MAX
    &&& CHANNELS * width * height <= len
}

/// The pixel index that a coordinate scaled to `0..=extent` falls on: the
/// far edge itself, and anything past it, falls on the last pixel.
pub open spec fn nearest_index(scaled: u32, extent: u32) -> u32 {
    if scaled >= extent {
        (extent - 1) as u32
    } else {
        scaled
    }
}

/// Calls `image::ImageBuffer::from_raw`. It multiplies three by the width
/// and then by the height, refuses where either product overflows `usize` or
/// the buffer is shorter than the second, and otherwise keeps the dimensions
/// and the buffer as given.
#[verifier::external_body]
fn buffer_from_raw(width: u32, height: u32, data: Vec<u8>) -> (made: Option<Image>)
    ensures
        made is Some <==> buffer_fits(width, height, data@.len()),
        made is Some ==> image_size(made->0) == (width, height) && image_bytes(made->0) == data@,
{
    match image::RgbImage::from_raw(width, height, data) {
        Some(image) => Some(Image { image }),
        None => None,
    }
}

/// Calls `image::ImageBuffer::dimensions`, which returns the stored width
/// and height. The second clause is the buffer's own invariant: an `Image`
/// is only ever made by `buffer_from_raw` or copied from one, and nothing in
/// this module reaches its buffer mutably.
#[verifier::external_body]
fn buffer_dimensions(image: &Image) -> (size: (u32, u32))
    ensures
        size == image_size(*image),
        CHANNELS * size.0 * size.1 <= image_bytes(*image).len(),
{
    image.image.dimensions()
}

/// Calls `image::ImageBuffer::get_pixel`, which panics outside the bounds
/// and inside them returns the three bytes that start at
/// `(y * width + x) * 3` of the raw buffer.
#[verifier::external_body]
fn buffer_get_pixel(image: &Image, x: u32, y: u32) -> (pixel: [u8; 3])
    requires
        x < image_size(*image).0,
        y < image_size(*image).1,
    ensures
        pixel@ == image@.pixel(x, y),
{
    image.image.get_pixel(x, y).0
}

/// Calls `image::ImageBuffer::as_raw`, which lends the raw buffer.
#[verifier::external_body]
fn buffer_as_raw(image: &Image) -> (bytes: &Vec<u8>)
    ensures
        bytes@ == image_bytes(*image),
{
    image.image.as_raw()
}

/// Calls `image::ImageBuffer::into_raw`, which gives the raw buffer away.
#[verifier::external_body]
fn buffer_into_raw(image: Image) -> (bytes: Vec<u8>)
    ensures
        bytes@ == image_bytes(image),
{
    image.image.into_raw()
}

/// Calls `Clone::clone` of `image::ImageBuffer`, which copies the
/// dimensions and the raw buffer.
#[verifier::external_body]
fn buffer_clone(image: &Image) -> (copy: Image)
    ensures
        image_size(copy) == image_size(*image),
        image_bytes(copy) == image_bytes(*image),
{
    Image { image: image.image.clone() }
}

impl Clone for Image {
    /// A raster of the same dimensions over a copy of the buffer.
    fn clone(&self) -> (copy: Self)
        ensures
            copy@ == self@,
    {
        buffer_clone(self)
    }
}

/// The pixel index that a coordinate scaled to `0..=extent` falls on.
pub fn pixel_index(scaled: u32, extent: u32) -> (index: u32)
    requires
        extent > 0,
    ensures
        index == nearest_index(scaled, extent),
        index < extent,
        scaled < extent ==> index == scaled,
{
    if scaled >= extent {
        extent - 1
    } else {
        scaled
    }
}

impl Image {
    /// A raster of `width` by `height` pixels over `data`, or `None` when
    /// `data` is too short for that many pixels.
    pub fn from_raw(width: u32, height: u32, data: Vec<u8>) -> (made: Option<Self>)
        ensures
            made is Some <==> buffer_fits(width, height, data@.len()),
            made is Some ==> made->0@ == (ImageView { width, height, bytes: data@ }),
    {
        buffer_from_raw(width, height, data)
    }

    pub fn dimensions(&self) -> (size: (u32, u32))
        ensures
            size == (self@.width, self@.height),
            self@.holds_every_pixel(),
    {
        buffer_dimensions(self)
    }

    pub fn width(&self) -> (width: u32)
        ensures
            width == self@.width,
    {
        self.dimensions().0
    }

    pub fn height(&self) -> (height: u32)
        ensures
            height == self@.height,
    {
        self.dimensions().1
    }

    /// The raw buffer: three bytes for each pixel, row by row.
    pub fn as_raw(&self) -> (bytes: &Vec<u8>)
        ensures
            bytes@ == self@.bytes,
    {
        buffer_as_raw(self)
    }

    /// Gives up the raster for its raw buffer.
    pub fn into_raw(self) -> (bytes: Vec<u8>)
        ensures
            bytes@ == self@.bytes,
    {
        buffer_into_raw(self)
    }

    /// The pixel at `(x, y)`, or `None` outside the raster.
    pub fn get_pixel(&self, x: u32, y: u32) -> (pixel: Option<[u8; 3]>)
        ensures
            pixel is Some <==> x < self@.width && y < self@.height,
            pixel is Some ==> pixel->0@ == self@.pixel(x, y),
    {
        let (width, height) = self.dimensions();
        if x < width && y < height {
            Some(buffer_get_pixel(self, x, y))
        } else {
            None
        }
    }

    /// The pixel nearest to `(i, j)`, where `i` is a horizontal coordinate
    /// scaled to `0..=width` and `j` a vertical one scaled to `0..=height`.
    /// `None` when the raster has no pixels.
    pub fn sample(&self, i: u32, j: u32) -> (pixel: Option<[u8; 3]>)
        ensures
            pixel is Some <==> self@.width > 0 && self@.height > 0,
            pixel is Some ==> pixel->0@ == self@.pixel(
                nearest_index(i, self@.width),
                nearest_index(j, self@.height),
            ),
    {
        let (width, height) = self.dimensions();
        if width == 0 || height == 0 {
            None
        } else {
            Some(buffer_get_pixel(self, pixel_index(i, width), pixel_index(j, height)))
        }
    }
}

} // verus!
