//! Pixel-exact collision between two sprites.
//!
//! A sprite is an image placed by the world position of its centre, upright
//! or turned upside down. Sprites are snapped to the pixel raster before
//! they are compared: the low edges of a sprite's box, `centre - size / 2`,
//! are rounded up to whole pixels, and the box keeps the image's size. Two
//! sprites collide when some pixel of world space is solid in both.

use vstd::prelude::*;
use crate::config::{HALF_MILLI, HALF_TURN_THRESHOLD, MILLI, OPAQUE_CUTOFF};
use crate::geometry::Vec2;
use crate::units::{ceil_quotient, div_ceil};

verus! {

/// Placement of a sprite: the world position of its centre in millipixels,
/// and its rotation about the axis out of the screen in milliradians.
#[derive(Clone, Copy, Debug, PartialEq, Eq, Structural)]
pub struct Transform2D {
    pub x: i64,
    pub y: i64,
    pub rotation: i64,
}

/// Why a pixel buffer was refused.
#[derive(Clone, Copy, Debug, PartialEq, Eq, Structural)]
pub enum ImageError {
    /// The width or the height is zero.
    EmptySize,
    /// The buffer holds fewer than `width * height * 4` bytes.
    ShortBuffer,
}

/// An RGBA image: four bytes per pixel, rows from the top, pixels from the
/// left.
pub struct PixelImage {
    width: u32,
    height: u32,
    data: Vec<u8>,
}

/// The mathematical content of a `PixelImage`.
pub struct ImageView {
    pub width: int,
    pub height: int,
    pub data: Seq<u8>,
}

impl ImageView {
    /// Whether the size is positive and the buffer covers every pixel.
    pub open spec fn valid(self) -> bool {
        &&& self.width > 0
        &&& self.height > 0
        &&& self.data.len() >= self.width * self.height * 4
    }

    /// The alpha byte of the pixel in column `col` of row `row`.
    pub open spec fn alpha(self, col: int, row: int) -> u8
        recommends
            0 <= col < self.width,
            0 <= row < self.height,
    {
        self.data[(row * self.width + col) * 4 + 3]
    }

    /// Whether every pixel has an alpha byte above `cutoff`.
    pub open spec fn all_solid(self, cutoff: u8) -> bool {
        forall|col: int, row: int|
            0 <= col < self.width && 0 <= row < self.height ==> #[trigger] self.alpha(col, row)
                > cutoff
    }
}

/// The first whole pixel of a sprite's box along one axis: `centre - size / 2`
/// rounded up, with `centre` in millipixels and `size` in pixels.
pub open spec fn low_edge(centre: int, size: int) -> int {
    ceil_quotient(centre - size * HALF_MILLI, MILLI as int)
}

impl Transform2D {
    /// An upright sprite centred on `(x, y)`.
    pub fn from_xy(x: i64, y: i64) -> (t: Transform2D)
        ensures
            t == (Transform2D { x, y, rotation: 0 }),
    {
        Transform2D { x, y, rotation: 0 }
    }

    /// Whether the sprite counts as turned upside down.
    pub open spec fn flipped(self) -> bool {
        self.rotation > HALF_TURN_THRESHOLD
    }

    /// Tells whether the sprite counts as turned upside down.
    pub fn is_flipped(&self) -> (b: bool)
        ensures
            b == self.flipped(),
    {
        self.rotation > HALF_TURN_THRESHOLD
    }

    /// Leftmost pixel column of the box of a sprite `width` pixels wide.
    pub open spec fn left(self, width: int) -> int {
        low_edge(self.x as int, width)
    }

    /// Lowest pixel row of the box of a sprite `height` pixels high.
    pub open spec fn bottom(self, height: int) -> int {
        low_edge(self.y as int, height)
    }

    /// Whether world pixel `(gx, gy)` lies in the box of a sprite of the
    /// given size.
    pub open spec fn covers(self, width: int, height: int, gx: int, gy: int) -> bool {
        &&& self.left(width) <= gx < self.left(width) + width
        &&& self.bottom(height) <= gy < self.bottom(height) + height
    }

    /// Column, from the left of the image as stored, of the pixel that the
    /// sprite shows at world column `gx`.
    pub open spec fn image_col(self, width: int, gx: int) -> int {
        if self.flipped() {
            width - 1 - (gx - self.left(width))
        } else {
            gx - self.left(width)
        }
    }

    /// Row, from the top of the image as stored, of the pixel that the
    /// sprite shows at world row `gy`.
    pub open spec fn image_row(self, height: int, gy: int) -> int {
        if self.flipped() {
            height - 1 - (self.bottom(height) + height - 1 - gy)
        } else {
            self.bottom(height) + height - 1 - gy
        }
    }

    /// Whether the sprite made of this placement and `img` is solid at
    /// world pixel `(gx, gy)`.
    pub open spec fn solid_at(self, img: ImageView, cutoff: u8, gx: int, gy: int) -> bool {
        &&& self.covers(img.width, img.height, gx, gy)
        &&& img.alpha(self.image_col(img.width, gx), self.image_row(img.height, gy)) > cutoff
    }
}

/// Whether the two boxes share a pixel.
pub open spec fn boxes_overlap(a: Transform2D, img_a: ImageView, b: Transform2D, img_b: ImageView) -> bool {
    &&& a.left(img_a.width) < b.left(img_b.width) + img_b.width
    &&& a.left(img_a.width) + img_a.width > b.left(img_b.width)
    &&& a.bottom(img_a.height) < b.bottom(img_b.height) + img_b.height
    &&& a.bottom(img_a.height) + img_a.height > b.bottom(img_b.height)
}

/// Whether some pixel of world space is solid in both sprites.
pub open spec fn collides(
    a: Transform2D,
    img_a: ImageView,
    b: Transform2D,
    img_b: ImageView,
    cutoff: u8,
) -> bool {
    exists|gx: int, gy: int| #[trigger]
        a.solid_at(img_a, cutoff, gx, gy) && b.solid_at(img_b, cutoff, gx, gy)
}

/// Moving a sprite by whole pixels moves its box by as many pixels.
pub proof fn lemma_low_edge_shift(centre: int, size: int, shift: int)
    ensures
        low_edge(centre + shift * MILLI, size) == low_edge(centre, size) + shift,
{
}

/// The bounding-box reject is exact: sprites whose boxes share no pixel do
/// not collide, whatever their images hold.
pub proof fn lemma_disjoint_boxes_never_collide(
    a: Transform2D,
    img_a: ImageView,
    b: Transform2D,
    img_b: ImageView,
    cutoff: u8,
)
    requires
        !boxes_overlap(a, img_a, b, img_b),
    ensures
        !collides(a, img_a, b, img_b, cutoff),
{
    assert forall|gx: int, gy: int|
        !(#[trigger] a.solid_at(img_a, cutoff, gx, gy) && b.solid_at(img_b, cutoff, gx, gy)) by {}
}

/// A sprite whose image is solid all over is solid at every pixel of its box.
pub proof fn lemma_solid_all_over(t: Transform2D, img: ImageView, cutoff: u8, gx: int, gy: int)
    requires
        img.all_solid(cutoff),
        t.covers(img.width, img.height, gx, gy),
    ensures
        t.solid_at(img, cutoff, gx, gy),
{
    let col = t.image_col(img.width, gx);
    let row = t.image_row(img.height, gy);
    assert(0 <= col < img.width && 0 <= row < img.height);
    assert(img.alpha(col, row) > cutoff);
}

/// Opaque overlap: of two sprites of one size, both solid all over and the
/// second moved from the place of the first by `shift_x` pixels to the right
/// and `shift_y` pixels up, the two collide exactly when the move is less
/// than a full width and less than a full height. So they collide when they
/// share a centre, and when one is moved by one pixel less than its width;
/// they do not when one is moved by exactly its width or its height. Either
/// sprite may be upright or turned upside down.
pub proof fn lemma_solid_sprites_collide_when_near(
    a: Transform2D,
    img_a: ImageView,
    b: Transform2D,
    img_b: ImageView,
    cutoff: u8,
    shift_x: int,
    shift_y: int,
)
    requires
        img_a.valid(),
        img_b.valid(),
        img_a.width == img_b.width,
        img_a.height == img_b.height,
        img_a.all_solid(cutoff),
        img_b.all_solid(cutoff),
        b.x == a.x + shift_x * MILLI,
        b.y == a.y + shift_y * MILLI,
    ensures
        collides(a, img_a, b, img_b, cutoff) <==> (-img_a.width < shift_x < img_a.width
            && -img_a.height < shift_y < img_a.height),
{
    let w = img_a.width;
    let h = img_a.height;
    lemma_low_edge_shift(a.x as int, w, shift_x);
    lemma_low_edge_shift(a.y as int, h, shift_y);
    assert(b.left(w) == a.left(w) + shift_x);
    assert(b.bottom(h) == a.bottom(h) + shift_y);
    if -w < shift_x < w && -h < shift_y < h {
        let gx = if shift_x >= 0 {
            b.left(w)
        } else {
            a.left(w)
        };
        let gy = if shift_y >= 0 {
            b.bottom(h)
        } else {
            a.bottom(h)
        };
        lemma_solid_all_over(a, img_a, cutoff, gx, gy);
        lemma_solid_all_over(b, img_b, cutoff, gx, gy);
        assert(a.solid_at(img_a, cutoff, gx, gy) && b.solid_at(img_b, cutoff, gx, gy));
    } else {
        assert(!boxes_overlap(a, img_a, b, img_b));
        lemma_disjoint_boxes_never_collide(a, img_a, b, img_b, cutoff);
    }
}

impl PixelImage {
    #[verifier::type_invariant]
    spec fn well_formed(self) -> bool {
        self@.valid()
    }

    pub closed spec fn view(self) -> ImageView {
        ImageView { width: self.width as int, height: self.height as int, data: self.data@ }
    }

    /// Takes a pixel buffer as an image. The size must be positive and the
    /// buffer must cover every pixel.
    pub fn new(width: u32, height: u32, data: Vec<u8>) -> (r: Result<PixelImage, ImageError>)
        ensures
            match r {
                Ok(img) => img@ == (ImageView {
                    width: width as int,
                    height: height as int,
                    data: data@,
                }) && img@.valid(),
                Err(ImageError::EmptySize) => width == 0 || height == 0,
                Err(ImageError::ShortBuffer) => width > 0 && height > 0 && data@.len() < width
                    * height * 4,
            },
    {
        if width == 0 || height == 0 {
            return Err(ImageError::EmptySize);
        }
        assert(width * height <= 0xffff_ffff * 0xffff_ffff) by (nonlinear_arith)
            requires
                width <= 0xffff_ffff,
                height <= 0xffff_ffff,
        ;
        let needed: u128 = width as u128 * height as u128 * 4;
        if (data.len() as u128) < needed {
            return Err(ImageError::ShortBuffer);
        }
        Ok(PixelImage { width, height, data })
    }

    /// Width in pixels.
    pub fn width(&self) -> (w: u32)
        ensures
            w == self@.width,
            self@.valid(),
    {
        proof {
            use_type_invariant(self);
        }
        self.width
    }

    /// Height in pixels.
    pub fn height(&self) -> (h: u32)
        ensures
            h == self@.height,
            self@.valid(),
    {
        proof {
            use_type_invariant(self);
        }
        self.height
    }

    /// The alpha byte of the pixel in column `col` of row `row`, rows
    /// counted from the top.
    pub fn alpha(&self, col: u32, row: u32) -> (a: u8)
        requires
            col < self@.width,
            row < self@.height,
        ensures
            a == self@.alpha(col as int, row as int),
    {
        proof {
            use_type_invariant(self);
            lemma_pixel_in_buffer(self@, col as int, row as int);
        }
        assert(self.data@.len() == self.data.len());
        let i: usize = (row as usize * self.width as usize + col as usize) * 4 + 3;
        self.data[i]
    }
}

/// The bytes of a pixel inside the image lie inside the buffer.
proof fn lemma_pixel_in_buffer(img: ImageView, col: int, row: int)
    requires
        img.valid(),
        0 <= col < img.width,
        0 <= row < img.height,
    ensures
        0 <= row * img.width + col < img.width * img.height,
        0 <= row * img.width,
        (row * img.width + col) * 4 + 3 < img.data.len(),
{
    assert(row * img.width <= (img.height - 1) * img.width) by (nonlinear_arith)
        requires
            0 <= row <= img.height - 1,
            img.width > 0,
    ;
    assert((img.height - 1) * img.width == img.width * img.height - img.width) by (nonlinear_arith);
    assert(0 <= row * img.width) by (nonlinear_arith)
        requires
            0 <= row,
            img.width > 0,
    ;
}

/// Computes the first whole pixel of a sprite's box along one axis.
fn box_low_edge(centre: i64, size: u32) -> (e: i64)
    ensures
        e == low_edge(centre as int, size as int),
        -9_300_000_000_000_000 <= e <= 9_300_000_000_000_000,
{
    let shifted: i128 = centre as i128 - size as i128 * HALF_MILLI as i128;
    let e: i128 = div_ceil(shifted, MILLI as i128);
    e as i64
}

/// Turns a world pixel into the pixel of an unrotated image that lies
/// there, counted from the image's top-left corner. The answer lies inside
/// the image exactly when the sprite's box covers the world pixel.
pub fn global_to_local(global: Vec2, img_trans: &Transform2D, width: u32, height: u32) -> (local: Vec2)
    requires
        i64::MIN <= global.x - img_trans.left(width as int) <= i64::MAX,
        i64::MIN <= img_trans.bottom(height as int) + height - 1 - global.y <= i64::MAX,
    ensures
        local.x == global.x - img_trans.left(width as int),
        local.y == img_trans.bottom(height as int) + height - 1 - global.y,
{
    let left: i64 = box_low_edge(img_trans.x, width);
    let top: i64 = box_low_edge(img_trans.y, height) + (height as i64 - 1);
    let dy: i128 = top as i128 - global.y as i128;
    Vec2 { x: global.x - left, y: dy as i64 }
}

/// Turns a pixel of a sprite as shown into the pixel of its image as
/// stored: the same for an upright sprite, the point mirror for one turned
/// upside down.
pub fn rotate_index(index: Vec2, img_trans: &Transform2D, width: u32, height: u32) -> (stored: Vec2)
    requires
        img_trans.flipped() ==> width - 1 - index.x <= i64::MAX && height - 1 - index.y
            <= i64::MAX,
    ensures
        stored == if img_trans.flipped() {
            Vec2 { x: (width - 1 - index.x) as i64, y: (height - 1 - index.y) as i64 }
        } else {
            index
        },
{
    if img_trans.is_flipped() {
        let x: i128 = width as i128 - 1 - index.x as i128;
        let y: i128 = height as i128 - 1 - index.y as i128;
        Vec2 { x: x as i64, y: y as i64 }
    } else {
        index
    }
}

/// Tells whether the sprite is solid at a world pixel that its box covers.
fn solid_pixel(t: &Transform2D, img: &PixelImage, cutoff: u8, gx: i64, gy: i64) -> (b: bool)
    requires
        t.covers(img@.width, img@.height, gx as int, gy as int),
    ensures
        b == t.solid_at(img@, cutoff, gx as int, gy as int),
{
    let w: u32 = img.width();
    let h: u32 = img.height();
    let shown: Vec2 = global_to_local(Vec2 { x: gx, y: gy }, t, w, h);
    let stored: Vec2 = rotate_index(shown, t, w, h);
    img.alpha(stored.x as u32, stored.y as u32) > cutoff
}

/// Tells whether two sprites collide: whether some pixel of world space is
/// solid in both, a pixel being solid when its alpha byte is above `cutoff`.
pub fn collide_with_cutoff(
    transform_a: &Transform2D,
    img_a: &PixelImage,
    transform_b: &Transform2D,
    img_b: &PixelImage,
    cutoff: u8,
) -> (hit: bool)
    ensures
        hit == collides(*transform_a, img_a@, *transform_b, img_b@, cutoff),
        !boxes_overlap(*transform_a, img_a@, *transform_b, img_b@) ==> !hit,
{
    let a_min_x: i64 = box_low_edge(transform_a.x, img_a.width());
    let a_min_y: i64 = box_low_edge(transform_a.y, img_a.height());
    let a_max_x: i64 = a_min_x + img_a.width() as i64;
    let a_max_y: i64 = a_min_y + img_a.height() as i64;
    let b_min_x: i64 = box_low_edge(transform_b.x, img_b.width());
    let b_min_y: i64 = box_low_edge(transform_b.y, img_b.height());
    let b_max_x: i64 = b_min_x + img_b.width() as i64;
    let b_max_y: i64 = b_min_y + img_b.height() as i64;

    if !(a_min_x < b_max_x && a_max_x > b_min_x && a_min_y < b_max_y && a_max_y > b_min_y) {
        return false;
    }
    let lo_x: i64 = if a_min_x > b_min_x { a_min_x } else { b_min_x };
    let lo_y: i64 = if a_min_y > b_min_y { a_min_y } else { b_min_y };
    let hi_x: i64 = if a_max_x < b_max_x { a_max_x } else { b_max_x };
    let hi_y: i64 = if a_max_y < b_max_y { a_max_y } else { b_max_y };

    let mut y: i64 = lo_y;
    while y < hi_y
        invariant
            lo_y <= y <= hi_y,
            lo_x < hi_x,
            a_min_x == transform_a.left(img_a@.width),
            a_min_y == transform_a.bottom(img_a@.height),
            b_min_x == transform_b.left(img_b@.width),
            b_min_y == transform_b.bottom(img_b@.height),
            a_max_x == a_min_x + img_a@.width,
            a_max_y == a_min_y + img_a@.height,
            b_max_x == b_min_x + img_b@.width,
            b_max_y == b_min_y + img_b@.height,
            a_min_x <= lo_x && b_min_x <= lo_x && hi_x <= a_max_x && hi_x <= b_max_x,
            a_min_y <= lo_y && b_min_y <= lo_y && hi_y <= a_max_y && hi_y <= b_max_y,
            forall|gx: int, gy: int|
                lo_x <= gx < hi_x && lo_y <= gy < y ==> !(#[trigger] transform_a.solid_at(
                    img_a@,
                    cutoff,
                    gx,
                    gy,
                ) && transform_b.solid_at(img_b@, cutoff, gx, gy)),
        decreases hi_y - y,
    {
        let mut x: i64 = lo_x;
        while x < hi_x
            invariant
                lo_y <= y < hi_y,
                lo_x <= x <= hi_x,
                a_min_x == transform_a.left(img_a@.width),
                a_min_y == transform_a.bottom(img_a@.height),
                b_min_x == transform_b.left(img_b@.width),
                b_min_y == transform_b.bottom(img_b@.height),
                a_max_x == a_min_x + img_a@.width,
                a_max_y == a_min_y + img_a@.height,
                b_max_x == b_min_x + img_b@.width,
                b_max_y == b_min_y + img_b@.height,
                a_min_x <= lo_x && b_min_x <= lo_x && hi_x <= a_max_x && hi_x <= b_max_x,
                a_min_y <= lo_y && b_min_y <= lo_y && hi_y <= a_max_y && hi_y <= b_max_y,
                forall|gx: int|
                    lo_x <= gx < x ==> !(#[trigger] transform_a.solid_at(img_a@, cutoff, gx, y as int)
                        && transform_b.solid_at(img_b@, cutoff, gx, y as int)),
            decreases hi_x - x,
        {
            if solid_pixel(transform_a, img_a, cutoff, x, y) && solid_pixel(
                transform_b,
                img_b,
                cutoff,
                x,
                y,
            ) {
                assert(transform_a.solid_at(img_a@, cutoff, x as int, y as int));
                return true;
            }
            x = x + 1;
        }
        y = y + 1;
    }
    false
}

/// Tells whether two sprites collide, a pixel being solid when its alpha
/// byte is not zero.
pub fn collide(
    transform_a: &Transform2D,
    img_a: &PixelImage,
    transform_b: &Transform2D,
    img_b: &PixelImage,
) -> (hit: bool)
    ensures
        hit == collides(*transform_a, img_a@, *transform_b, img_b@, OPAQUE_CUTOFF),
        !boxes_overlap(*transform_a, img_a@, *transform_b, img_b@) ==> !hit,
{
    collide_with_cutoff(transform_a, img_a, transform_b, img_b, OPAQUE_CUTOFF)
}

} // verus!
