use crate::color::TriColor;
use crate::{HEIGHT, PLANE_BYTES, WIDTH};
use embedded_graphics::framebuffer::Framebuffer;
use embedded_graphics_core::draw_target::DrawTarget;
use embedded_graphics_core::pixelcolor::raw::{LittleEndian, RawU1};
use embedded_graphics_core::pixelcolor::BinaryColor;
use vstd::prelude::*;

verus! {

#[verifier::external_type_specification]
#[verifier::external_body]
pub struct ExBinaryColor(BinaryColor);

#[verifier::external_type_specification]
#[verifier::external_body]
pub struct ExRawU1(RawU1);

#[verifier::external_type_specification]
#[verifier::external_body]
pub struct ExLittleEndian(LittleEndian);

#[verifier::external_type_specification]
#[verifier::external_body]
#[verifier::reject_recursive_types(C)]
#[verifier::reject_recursive_types(R)]
#[verifier::reject_recursive_types(BO)]
pub struct ExFramebuffer<C, R, BO, const W: usize, const H: usize, const N: usize>(
    Framebuffer<C, R, BO, W, H, N>,
);

/// One bit-plane of the panel: 200x200 pixels, one bit each, most significant bit first.
pub type Plane = Framebuffer<BinaryColor, RawU1, LittleEndian, 200, 200, 5000>;

/// The bytes that a plane holds.
pub uninterp spec fn plane_bytes(p: Plane) -> Seq<u8>;

/// Relies on `Framebuffer::new`: the data array starts as `[0; N]`.
#[verifier::external_body]
fn plane_new() -> (r: Plane)
    ensures
        plane_bytes(r) == Seq::new(5000, |i: int| 0u8),
{
    Plane::new()
}

/// Relies on `DrawTarget::clear` of `Framebuffer`, which fills its whole bounding box
/// (200x200, rows of exactly 25 bytes) through `set_pixel`, with `BinaryColor::On`
/// stored as bit 1 and `Off` as bit 0.
#[verifier::external_body]
fn plane_clear(p: &mut Plane, on: bool)
    ensures
        plane_bytes(*final(p)) == Seq::new(5000, |i: int| if on { 0xFFu8 } else { 0x00u8 }),
{
    let _ = p.clear(BinaryColor::from(on));
}

/// Relies on `Framebuffer::data`: a reference to the data array itself.
#[verifier::external_body]
fn plane_data(p: &Plane) -> (r: &[u8; 5000])
    ensures
        r@ == plane_bytes(*p),
{
    p.data()
}

/// Relies on `Framebuffer::data_mut`: a mutable reference to the data array itself.
#[verifier::external_body]
fn plane_set_byte(p: &mut Plane, i: usize, v: u8)
    requires
        i < 5000,
    ensures
        plane_bytes(*final(p)) == plane_bytes(*old(p)).update(i as int, v),
{
    p.data_mut()[i] = v;
}

} // verus!

verus! {

/// Rotation of the display.
#[derive(Clone, Copy, Debug, PartialEq, Eq, Structural)]
pub enum DisplayRotation {
    /// No rotation, normal display
    Rotate0,
    /// Rotate by 90 degress clockwise
    Rotate90,
    /// Rotate by 180 degress clockwise
    Rotate180,
    /// Rotate 270 degress clockwise, recommend
    Rotate270,
}

impl Default for DisplayRotation {
    fn default() -> (r: DisplayRotation)
        ensures
            r == DisplayRotation::Rotate0,
    {
        DisplayRotation::Rotate0
    }
}

/// Whether the rotation exchanges the panel's width and height.
pub open spec fn swaps_axes(rotation: DisplayRotation) -> bool {
    rotation == DisplayRotation::Rotate90 || rotation == DisplayRotation::Rotate270
}

/// Logical extent (width, height) of a `width` x `height` panel seen under `rotation`.
pub open spec fn logical_size(width: int, height: int, rotation: DisplayRotation) -> (int, int) {
    if swaps_axes(rotation) {
        (height, width)
    } else {
        (width, height)
    }
}

/// Whether logical `(x, y)` lies on the rotated panel.
pub open spec fn in_logical(x: int, y: int, width: int, height: int, rotation: DisplayRotation) -> bool {
    0 <= x < logical_size(width, height, rotation).0 && 0 <= y < logical_size(width, height, rotation).1
}

/// Physical (unrotated) coordinates of logical `(x, y)`.
pub open spec fn rotate(x: int, y: int, width: int, height: int, rotation: DisplayRotation) -> (int, int) {
    match rotation {
        DisplayRotation::Rotate0 => (x, y),
        DisplayRotation::Rotate90 => (width - 1 - y, x),
        DisplayRotation::Rotate180 => (width - 1 - x, height - 1 - y),
        DisplayRotation::Rotate270 => (y, height - 1 - x),
    }
}

/// Bytes in one row of a plane.
pub open spec fn row_bytes(width: int) -> int {
    (width + 7) / 8
}

/// The byte of a plane, and the bit within it counted from the most significant end,
/// that hold logical `(x, y)`.
pub open spec fn bit_address(x: int, y: int, width: int, height: int, rotation: DisplayRotation) -> (int, int) {
    let (nx, ny) = rotate(x, y, width, height, rotation);
    (nx / 8 + row_bytes(width) * ny, nx % 8)
}

/// The mask that selects bit `shift`, counted from the most significant end.
pub open spec fn bit_mask(shift: int) -> u8 {
    0x80u8 >> (shift as u8)
}

/// Physical `(byteIndex, bitMask)` of logical `(x, y)`.
pub open spec fn position(x: int, y: int, width: int, height: int, rotation: DisplayRotation) -> (int, u8) {
    let (i, s) = bit_address(x, y, width, height, rotation);
    (i, bit_mask(s))
}

/// Bounds under which the addressing arithmetic fits in `u32`.
pub open spec fn panel_fits(width: int, height: int) -> bool {
    0 < width <= 0xFFFF && 0 < height <= 0xFFFF
}

fn find_rotation(x: u32, y: u32, width: u32, height: u32, rotation: DisplayRotation) -> (r: (u32, u32))
    requires
        panel_fits(width as int, height as int),
        in_logical(x as int, y as int, width as int, height as int, rotation),
    ensures
        (r.0 as int, r.1 as int) == rotate(x as int, y as int, width as int, height as int, rotation),
        r.0 < width,
        r.1 < height,
{
    match rotation {
        DisplayRotation::Rotate0 => (x, y),
        DisplayRotation::Rotate90 => (width - 1 - y, x),
        DisplayRotation::Rotate180 => (width - 1 - x, height - 1 - y),
        DisplayRotation::Rotate270 => (y, height - 1 - x),
    }
}

/// Byte index and bit mask in a plane of logical pixel `(x, y)`.
pub fn find_position(x: u32, y: u32, width: u32, height: u32, rotation: DisplayRotation) -> (r: (u32, u8))
    requires
        panel_fits(width as int, height as int),
        in_logical(x as int, y as int, width as int, height as int, rotation),
    ensures
        (r.0 as int, r.1) == position(x as int, y as int, width as int, height as int, rotation),
        (r.0 as int) < row_bytes(width as int) * (height as int),
{
    let (nx, ny) = find_rotation(x, y, width, height, rotation);
    assert((nx / 8) as int + row_bytes(width as int) * (ny as int) < row_bytes(width as int) * (height as int))
        by (nonlinear_arith)
        requires
            nx < width, ny < height, width <= 0xFFFF,
            row_bytes(width as int) == (width as int + 7) / 8,
    {
        assert((nx / 8) as int + row_bytes(width as int) * (ny as int) < row_bytes(width as int) * (ny as int + 1));
    }
    assert(row_bytes(width as int) * (height as int) <= 0x2000 * 0xFFFF) by (nonlinear_arith)
        requires row_bytes(width as int) == (width as int + 7) / 8, width <= 0xFFFF, height <= 0xFFFF,
    ;
    let shift = (nx % 8) as u8;
    (nx / 8 + ((width + 7) / 8) * ny, 0x80u8 >> shift)
}

} // verus!

verus! {

/// The black and red planes after painting one pixel at byte `i` under mask `m`.
pub open spec fn paint(black: Seq<u8>, red: Seq<u8>, i: int, m: u8, color: TriColor) -> (Seq<u8>, Seq<u8>) {
    let b = if color.black_bit() { black[i] | m } else { black[i] & !m };
    let r = if color.red_bit() { red[i] | m } else { red[i] & !m };
    (black.update(i, b), red.update(i, r))
}

/// Whether logical pixel `(x, y)` of the 200x200 panel has its bit set in `plane`.
pub open spec fn ink(plane: Seq<u8>, x: int, y: int, rotation: DisplayRotation) -> bool {
    let (i, m) = position(x, y, 200, 200, rotation);
    plane[i] & m != 0
}

/// The planes after a batch of `(x, y, color)` writes, in order; writes off the
/// rotated panel are skipped.
pub open spec fn draw_all(
    black: Seq<u8>,
    red: Seq<u8>,
    rotation: DisplayRotation,
    pixels: Seq<(i32, i32, TriColor)>,
) -> (Seq<u8>, Seq<u8>)
    decreases pixels.len(),
{
    if pixels.len() == 0 {
        (black, red)
    } else {
        let (b, r) = draw_all(black, red, rotation, pixels.drop_last());
        let (x, y, c) = pixels.last();
        if in_logical(x as int, y as int, WIDTH as int, HEIGHT as int, rotation) {
            let (i, m) = position(x as int, y as int, WIDTH as int, HEIGHT as int, rotation);
            paint(b, r, i, m, c)
        } else {
            (b, r)
        }
    }
}

/// Host-side copy of the panel's two bit-planes, addressed in rotated coordinates.
pub struct Display {
    black_fbuf: Plane,
    red_fbuf: Plane,
    rotation: DisplayRotation,
    is_inverted: bool,
}

impl Display {
    /// Bytes of the black plane: a set bit is a pixel without black ink.
    pub closed spec fn black(&self) -> Seq<u8> {
        plane_bytes(self.black_fbuf)
    }

    /// Bytes of the red plane: a set bit is a red pixel.
    pub closed spec fn red(&self) -> Seq<u8> {
        plane_bytes(self.red_fbuf)
    }

    pub closed spec fn rotation_spec(&self) -> DisplayRotation {
        self.rotation
    }

    pub closed spec fn inverted_spec(&self) -> bool {
        self.is_inverted
    }

    /// Both planes hold exactly one plane's worth of bytes.
    pub open spec fn wf(&self) -> bool {
        self.black().len() == PLANE_BYTES && self.red().len() == PLANE_BYTES
    }

    /// Both planes zeroed (all black), no rotation.
    pub fn new() -> (r: Display)
        ensures
            r.wf(),
            r.black() == Seq::new(5000, |i: int| 0u8),
            r.red() == Seq::new(5000, |i: int| 0u8),
            r.rotation_spec() == DisplayRotation::Rotate0,
            r.inverted_spec(),
    {
        Display {
            black_fbuf: plane_new(),
            red_fbuf: plane_new(),
            rotation: DisplayRotation::Rotate0,
            is_inverted: true,
        }
    }

    /// Clear the buffers, filling them a single color.
    pub fn clear(&mut self, color: TriColor)
        ensures
            final(self).wf(),
            final(self).black() == Seq::new(5000, |i: int| if color.black_bit() { 0xFFu8 } else { 0x00u8 }),
            final(self).red() == Seq::new(5000, |i: int| if color.red_bit() { 0xFFu8 } else { 0x00u8 }),
            color == TriColor::White ==> forall|i: int|
                0 <= i < 5000 ==> #[trigger] final(self).black()[i] == 0xFF && final(self).red()[i] == 0x00,
            color == TriColor::Black ==> forall|i: int|
                0 <= i < 5000 ==> #[trigger] final(self).black()[i] == 0x00 && final(self).red()[i] == 0x00,
            color == TriColor::Red ==> forall|i: int|
                0 <= i < 5000 ==> #[trigger] final(self).black()[i] == 0xFF && final(self).red()[i] == 0xFF,
            final(self).rotation_spec() == old(self).rotation_spec(),
            final(self).inverted_spec() == old(self).inverted_spec(),
    {
        let (black, red) = match color {
            TriColor::White => (true, false),
            TriColor::Black => (false, false),
            TriColor::Red => (true, true),
        };
        plane_clear(&mut self.black_fbuf, black);
        plane_clear(&mut self.red_fbuf, red);
    }

    /// Paint logical pixel `(x, y)` of the rotated panel.
    pub fn set_pixel(&mut self, x: u32, y: u32, color: TriColor)
        requires
            old(self).wf(),
            in_logical(x as int, y as int, WIDTH as int, HEIGHT as int, old(self).rotation_spec()),
        ensures
            final(self).wf(),
            ({
                let (i, m) = position(x as int, y as int, WIDTH as int, HEIGHT as int, old(self).rotation_spec());
                (final(self).black(), final(self).red()) == paint(old(self).black(), old(self).red(), i, m, color)
            }),
            ink(final(self).black(), x as int, y as int, old(self).rotation_spec()) == color.black_bit(),
            ink(final(self).red(), x as int, y as int, old(self).rotation_spec()) == color.red_bit(),
            forall|x2: int, y2: int|
                in_logical(x2, y2, 200, 200, old(self).rotation_spec()) && (x2 != x || y2 != y)
                    ==> #[trigger] ink(final(self).black(), x2, y2, old(self).rotation_spec()) == ink(old(self).black(), x2, y2, old(self).rotation_spec())
                    && ink(final(self).red(), x2, y2, old(self).rotation_spec()) == ink(old(self).red(), x2, y2, old(self).rotation_spec()),
            final(self).rotation_spec() == old(self).rotation_spec(),
            final(self).inverted_spec() == old(self).inverted_spec(),
    {
        let (index, bit) = find_position(x, y, WIDTH as u32, HEIGHT as u32, self.rotation);
        let index = index as usize;
        let b = plane_data(&self.black_fbuf)[index];
        let r = plane_data(&self.red_fbuf)[index];
        match color {
            TriColor::Black => {
                plane_set_byte(&mut self.black_fbuf, index, b & !bit);
                plane_set_byte(&mut self.red_fbuf, index, r & !bit);
            },
            TriColor::White => {
                plane_set_byte(&mut self.black_fbuf, index, b | bit);
                plane_set_byte(&mut self.red_fbuf, index, r & !bit);
            },
            TriColor::Red => {
                plane_set_byte(&mut self.black_fbuf, index, b | bit);
                plane_set_byte(&mut self.red_fbuf, index, r | bit);
            },
        }
        proof {
            assert(position(x as int, y as int, WIDTH as int, HEIGHT as int, self.rotation)
                == position(x as int, y as int, 200, 200, self.rotation));
            lemma_paint_reads_back(
                old(self).black(),
                old(self).red(),
                self.black(),
                self.red(),
                x as int,
                y as int,
                self.rotation,
                color,
            );
            assert forall|x2: int, y2: int|
                in_logical(x2, y2, 200, 200, old(self).rotation_spec()) && (x2 != x || y2 != y) implies
                    #[trigger] ink(self.black(), x2, y2, old(self).rotation_spec()) == ink(old(self).black(), x2, y2, old(self).rotation_spec())
                    && ink(self.red(), x2, y2, old(self).rotation_spec()) == ink(old(self).red(), x2, y2, old(self).rotation_spec()) by {
                assert(in_logical(x2, y2, 200, 200, self.rotation) && (x2 != x as int || y2 != y as int));
                assert(ink(self.black(), x2, y2, self.rotation) == ink(old(self).black(), x2, y2, self.rotation));
            }
        }
    }

    /// Paint each `(x, y, color)` in order; points off the rotated panel are skipped.
    pub fn draw_iter(&mut self, pixels: &Vec<(i32, i32, TriColor)>)
        requires
            old(self).wf(),
        ensures
            final(self).wf(),
            (final(self).black(), final(self).red())
                == draw_all(old(self).black(), old(self).red(), old(self).rotation_spec(), pixels@),
            final(self).rotation_spec() == old(self).rotation_spec(),
            final(self).inverted_spec() == old(self).inverted_spec(),
    {
        let (w, h) = self.size();
        let mut k: usize = 0;
        while k < pixels.len()
            invariant
                k <= pixels.len(),
                self.wf(),
                self.rotation_spec() == old(self).rotation_spec(),
                self.inverted_spec() == old(self).inverted_spec(),
                (w as int, h as int) == logical_size(WIDTH as int, HEIGHT as int, self.rotation_spec()),
                (self.black(), self.red())
                    == draw_all(old(self).black(), old(self).red(), old(self).rotation_spec(), pixels@.take(k as int)),
            decreases pixels.len() - k,
        {
            let (x, y, c) = pixels[k];
            proof {
                assert(pixels@.take(k as int + 1).drop_last() == pixels@.take(k as int));
            }
            if 0 <= x && (x as u32) < w && 0 <= y && (y as u32) < h {
                self.set_pixel(x as u32, y as u32, c);
            }
            k = k + 1;
        }
        proof {
            assert(pixels@.take(k as int) == pixels@);
        }
    }

    pub fn set_rotation(&mut self, rotation: DisplayRotation)
        ensures
            final(self).rotation_spec() == rotation,
            final(self).black() == old(self).black(),
            final(self).red() == old(self).red(),
            final(self).inverted_spec() == old(self).inverted_spec(),
    {
        self.rotation = rotation;
    }

    pub fn rotation(&self) -> (r: DisplayRotation)
        ensures
            r == self.rotation_spec(),
    {
        self.rotation
    }

    pub fn is_inverted(&self) -> (r: bool)
        ensures
            r == self.inverted_spec(),
    {
        self.is_inverted
    }

    pub fn black_data(&self) -> (r: &[u8; 5000])
        ensures
            r@ == self.black(),
    {
        plane_data(&self.black_fbuf)
    }

    pub fn red_data(&self) -> (r: &[u8; 5000])
        ensures
            r@ == self.red(),
    {
        plane_data(&self.red_fbuf)
    }

    /// Logical (width, height): the panel's own at 0 and 180 degrees, exchanged at 90 and 270.
    pub fn size(&self) -> (r: (u32, u32))
        ensures
            (r.0 as int, r.1 as int) == logical_size(WIDTH as int, HEIGHT as int, self.rotation_spec()),
    {
        match self.rotation {
            DisplayRotation::Rotate0 | DisplayRotation::Rotate180 => (WIDTH as u32, HEIGHT as u32),
            DisplayRotation::Rotate90 | DisplayRotation::Rotate270 => (HEIGHT as u32, WIDTH as u32),
        }
    }
}

impl Default for Display {
    fn default() -> (r: Display)
        ensures
            r.wf(),
            r.black() == Seq::new(5000, |i: int| 0u8),
            r.red() == Seq::new(5000, |i: int| 0u8),
            r.rotation_spec() == DisplayRotation::Rotate0,
            r.inverted_spec(),
    {
        Display::new()
    }
}

} // verus!

verus! {

/// The logical pixel of the 200x200 panel, under `rotation`, that bit `s` of byte `i`
/// of a plane holds.
pub open spec fn pixel_at(i: int, s: int, rotation: DisplayRotation) -> (int, int) {
    let nx = (i % 25) * 8 + s;
    let ny = i / 25;
    match rotation {
        DisplayRotation::Rotate0 => (nx, ny),
        DisplayRotation::Rotate90 => (ny, 199 - nx),
        DisplayRotation::Rotate180 => (199 - nx, 199 - ny),
        DisplayRotation::Rotate270 => (199 - ny, nx),
    }
}

proof fn lemma_address_of_physical(nx: int, ny: int)
    requires
        0 <= nx < 200,
        0 <= ny < 200,
    ensures
        0 <= nx / 8 + 25 * ny < 5000,
        (nx / 8 + 25 * ny) % 25 == nx / 8,
        (nx / 8 + 25 * ny) / 25 == ny,
        ((nx / 8 + 25 * ny) % 25) * 8 + nx % 8 == nx,
{
    assert(0 <= nx / 8 < 25);
    assert((nx / 8 + 25 * ny) % 25 == nx / 8 && (nx / 8 + 25 * ny) / 25 == ny) by (nonlinear_arith)
        requires 0 <= nx / 8 < 25, 0 <= ny,
    {
        vstd::arithmetic::div_mod::lemma_fundamental_div_mod_converse(nx / 8 + 25 * ny, 25, ny, nx / 8);
    }
}

proof fn lemma_physical_of_address(i: int, s: int)
    requires
        0 <= i < 5000,
        0 <= s < 8,
    ensures
        0 <= (i % 25) * 8 + s < 200,
        0 <= i / 25 < 200,
        ((i % 25) * 8 + s) / 8 == i % 25,
        ((i % 25) * 8 + s) % 8 == s,
        ((i % 25) * 8 + s) / 8 + 25 * (i / 25) == i,
{
    assert(i == 25 * (i / 25) + i % 25 && 0 <= i % 25 < 25) by {
        vstd::arithmetic::div_mod::lemma_fundamental_div_mod(i, 25);
    }
    assert(0 <= i / 25 < 200);
    vstd::arithmetic::div_mod::lemma_fundamental_div_mod_converse((i % 25) * 8 + s, 8, i % 25, s);
}

proof fn lemma_bit_mask_injective(s: int, t: int)
    requires
        0 <= s < 8,
        0 <= t < 8,
        bit_mask(s) == bit_mask(t),
    ensures
        s == t,
{
    let a = s as u8;
    let b = t as u8;
    assert(a < 8 && b < 8 && (0x80u8 >> a) == (0x80u8 >> b) ==> a == b) by (bit_vector);
}

/// Under each rotation, the logical pixels of the 200x200 panel and the bits of a
/// 5000-byte plane correspond one to one: every pixel lands on a bit of the plane,
/// no two pixels share a bit, and every bit holds a pixel, the one `pixel_at` names.
pub proof fn lemma_position_bijective(rotation: DisplayRotation)
    ensures
        forall|x: int, y: int|
            #![trigger position(x, y, 200, 200, rotation)]
            in_logical(x, y, 200, 200, rotation) ==> {
                let (i, m) = position(x, y, 200, 200, rotation);
                &&& 0 <= i < 5000
                &&& exists|s: int| 0 <= s < 8 && m == bit_mask(s)
            },
        forall|x1: int, y1: int, x2: int, y2: int|
            #![trigger position(x1, y1, 200, 200, rotation), position(x2, y2, 200, 200, rotation)]
            in_logical(x1, y1, 200, 200, rotation) && in_logical(x2, y2, 200, 200, rotation)
                && position(x1, y1, 200, 200, rotation) == position(x2, y2, 200, 200, rotation)
                ==> x1 == x2 && y1 == y2,
        forall|i: int, s: int|
            #![trigger pixel_at(i, s, rotation)]
            0 <= i < 5000 && 0 <= s < 8 ==> {
                let (x, y) = pixel_at(i, s, rotation);
                in_logical(x, y, 200, 200, rotation) && position(x, y, 200, 200, rotation) == (i, bit_mask(s))
            },
{
    assert forall|x: int, y: int|
        #![trigger position(x, y, 200, 200, rotation)]
        in_logical(x, y, 200, 200, rotation) implies {
            let (i, s) = bit_address(x, y, 200, 200, rotation);
            &&& 0 <= i < 5000
            &&& 0 <= s < 8
            &&& pixel_at(i, s, rotation) == (x, y)
            &&& position(x, y, 200, 200, rotation) == (i, bit_mask(s))
        } by {
        let (nx, ny) = rotate(x, y, 200, 200, rotation);
        lemma_address_of_physical(nx, ny);
    }
    assert forall|x1: int, y1: int, x2: int, y2: int|
        #![trigger position(x1, y1, 200, 200, rotation), position(x2, y2, 200, 200, rotation)]
        in_logical(x1, y1, 200, 200, rotation) && in_logical(x2, y2, 200, 200, rotation)
            && position(x1, y1, 200, 200, rotation) == position(x2, y2, 200, 200, rotation)
            implies x1 == x2 && y1 == y2 by {
        let (i1, s1) = bit_address(x1, y1, 200, 200, rotation);
        let (i2, s2) = bit_address(x2, y2, 200, 200, rotation);
        lemma_bit_mask_injective(s1, s2);
    }
    assert forall|i: int, s: int|
        #![trigger pixel_at(i, s, rotation)]
        0 <= i < 5000 && 0 <= s < 8 implies {
            let (x, y) = pixel_at(i, s, rotation);
            in_logical(x, y, 200, 200, rotation) && position(x, y, 200, 200, rotation) == (i, bit_mask(s))
        } by {
        lemma_physical_of_address(i, s);
    }
}

} // verus!

verus! {

proof fn lemma_mask_bits(b: u8, s: int, t: int)
    requires
        0 <= s < 8,
        0 <= t < 8,
    ensures
        (b | bit_mask(s)) & bit_mask(s) != 0,
        (b & !bit_mask(s)) & bit_mask(s) == 0,
        s != t ==> (((b | bit_mask(s)) & bit_mask(t)) != 0) == ((b & bit_mask(t)) != 0),
        s != t ==> (((b & !bit_mask(s)) & bit_mask(t)) != 0) == ((b & bit_mask(t)) != 0),
{
    let p = s as u8;
    let q = t as u8;
    assert(p < 8 && q < 8 ==> {
        &&& (b | (0x80u8 >> p)) & (0x80u8 >> p) != 0
        &&& (b & !(0x80u8 >> p)) & (0x80u8 >> p) == 0
        &&& (p != q ==> (((b | (0x80u8 >> p)) & (0x80u8 >> q)) != 0) == ((b & (0x80u8 >> q)) != 0))
        &&& (p != q ==> (((b & !(0x80u8 >> p)) & (0x80u8 >> q)) != 0) == ((b & (0x80u8 >> q)) != 0))
    }) by (bit_vector);
}

/// Painting logical pixel `(x, y)` sets its bits to the color's and keeps every
/// other pixel of the panel.
proof fn lemma_paint_reads_back(
    black: Seq<u8>,
    red: Seq<u8>,
    b: Seq<u8>,
    r: Seq<u8>,
    x: int,
    y: int,
    rotation: DisplayRotation,
    color: TriColor,
)
    requires
        black.len() == PLANE_BYTES,
        red.len() == PLANE_BYTES,
        in_logical(x, y, 200, 200, rotation),
        (b, r) == paint(black, red, position(x, y, 200, 200, rotation).0, position(x, y, 200, 200, rotation).1, color),
    ensures
        ({
            &&& ink(b, x, y, rotation) == color.black_bit()
            &&& ink(r, x, y, rotation) == color.red_bit()
            &&& forall|x2: int, y2: int|
                in_logical(x2, y2, 200, 200, rotation) && (x2 != x || y2 != y)
                    ==> #[trigger] ink(b, x2, y2, rotation) == ink(black, x2, y2, rotation)
                    && ink(r, x2, y2, rotation) == ink(red, x2, y2, rotation)
        }),
{
    lemma_position_bijective(rotation);
    let (i, s) = bit_address(x, y, 200, 200, rotation);
    assert(position(x, y, 200, 200, rotation) == (i, bit_mask(s)));
    assert(0 <= i < 5000);
    lemma_mask_bits(black[i], s, s);
    lemma_mask_bits(red[i], s, s);
    assert forall|x2: int, y2: int|
        in_logical(x2, y2, 200, 200, rotation) && (x2 != x || y2 != y)
            implies #[trigger] ink(b, x2, y2, rotation) == ink(black, x2, y2, rotation)
            && ink(r, x2, y2, rotation) == ink(red, x2, y2, rotation) by {
        let (i2, s2) = bit_address(x2, y2, 200, 200, rotation);
        assert(position(x2, y2, 200, 200, rotation) == (i2, bit_mask(s2)));
        assert(0 <= i2 < 5000);
        if i2 == i {
            if s2 == s {
                assert(position(x2, y2, 200, 200, rotation) == position(x, y, 200, 200, rotation));
            }
            lemma_mask_bits(black[i], s, s2);
            lemma_mask_bits(red[i], s, s2);
            assert(ink(b, x2, y2, rotation) == ink(black, x2, y2, rotation));
            assert(ink(r, x2, y2, rotation) == ink(red, x2, y2, rotation));
        } else {
            assert(b[i2] == black[i2]);
            assert(r[i2] == red[i2]);
        }
    }
}

} // verus!
