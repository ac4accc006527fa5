//! Colours and the frame buffer: one colour and one depth per pixel.

use vstd::prelude::*;
use crate::fixed::{fx_unit, Fx};

verus! {

/// Raw depth of a pixel that nothing has been drawn on: the farthest value.
pub const FAR_DEPTH_RAW: i64 = 0x7fff_ffff_ffff_ffff;

/// An eight-bit colour with alpha.
#[derive(Clone, Copy, Debug, PartialEq, Eq, Structural)]
pub struct Color {
    pub r: u8,
    pub g: u8,
    pub b: u8,
    pub a: u8,
}

/// The eight-bit level of a raw intensity: the intensity is limited to the
/// unit interval, scaled to `[0, 255]` and rounded down.
pub open spec fn channel_level(c: int) -> int {
    (fx_unit(c) * 255) / 4294967296
}

/// The raw intensity of an eight-bit level: the smallest intensity that is
/// quantized to the level.
pub open spec fn level_intensity(level: int) -> int {
    (level * 4294967296 + 254) / 255
}

/// Quantizes an intensity to eight bits.
fn quantize(c: Fx) -> (r: u8)
    ensures
        r == channel_level(c@),
{
    ((c.unit().raw * 255) / 4294967296) as u8
}

impl Color {
    /// The opaque colour with the given levels.
    pub fn rgb(r: u8, g: u8, b: u8) -> (c: Color)
        ensures
            c == (Color { r, g, b, a: 255 }),
    {
        Color { r, g, b, a: 255 }
    }

    /// The intensity of an eight-bit level, such that quantizing it gives the
    /// level back.
    pub fn intensity(level: u8) -> (r: Fx)
        ensures
            r@ == level_intensity(level as int),
            0 <= r@ <= 4294967296,
            channel_level(r@) == level,
    {
        Fx { raw: (level as i64 * 4294967296 + 254) / 255 }
    }

    /// The opaque colour with the given intensities, each limited to the unit
    /// interval and quantized to eight bits by rounding down.
    pub fn from_unit_rgb(r: Fx, g: Fx, b: Fx) -> (c: Color)
        ensures
            c.r == channel_level(r@),
            c.g == channel_level(g@),
            c.b == channel_level(b@),
            c.a == 255,
    {
        Color { r: quantize(r), g: quantize(g), b: quantize(b), a: 255 }
    }
}

/// Mathematical model of a frame buffer.
#[verifier::ext_equal]
pub struct FrameModel {
    pub width: nat,
    pub height: nat,
    /// One colour per pixel, row by row from the top.
    pub color: Seq<Color>,
    /// One raw depth per pixel, in the same order.
    pub depth: Seq<int>,
}

/// The frame of the given size with every pixel black and at the farthest
/// depth.
pub open spec fn blank_frame(width: nat, height: nat) -> FrameModel {
    FrameModel {
        width,
        height,
        color: Seq::new(width * height, |i: int| Color { r: 0, g: 0, b: 0, a: 255 }),
        depth: Seq::new(width * height, |i: int| 0x7fff_ffff_ffff_ffff),
    }
}

/// The frame with every colour replaced by `c`.
pub open spec fn frame_with_color(f: FrameModel, c: Color) -> FrameModel {
    FrameModel { color: Seq::new(f.color.len(), |i: int| c), ..f }
}

/// The frame with every depth replaced by the farthest value.
pub open spec fn frame_with_far_depth(f: FrameModel) -> FrameModel {
    FrameModel { depth: Seq::new(f.depth.len(), |i: int| 0x7fff_ffff_ffff_ffff), ..f }
}

/// The frame after a fragment of the given colour and depth has arrived at
/// the pixel with index `i`: the fragment is kept only where it is strictly
/// nearer than what the pixel holds.
pub open spec fn frame_with_fragment(f: FrameModel, i: int, c: Color, depth: int) -> FrameModel {
    if 0 <= i < f.depth.len() && depth < f.depth[i] {
        FrameModel { color: f.color.update(i, c), depth: f.depth.update(i, depth), ..f }
    } else {
        f
    }
}

/// The colours of a frame as bytes: red, green, blue, alpha for each pixel.
pub open spec fn rgba_bytes(color: Seq<Color>) -> Seq<u8> {
    Seq::new(
        4 * color.len(),
        |i: int|
            if i % 4 == 0 {
                color[i / 4].r
            } else if i % 4 == 1 {
                color[i / 4].g
            } else if i % 4 == 2 {
                color[i / 4].b
            } else {
                color[i / 4].a
            },
    )
}

/// The colours of a frame as bytes without alpha: red, green, blue for each
/// pixel.
pub open spec fn rgb_bytes(color: Seq<Color>) -> Seq<u8> {
    Seq::new(
        3 * color.len(),
        |i: int|
            if i % 3 == 0 {
                color[i / 3].r
            } else if i % 3 == 1 {
                color[i / 3].g
            } else {
                color[i / 3].b
            },
    )
}

/// The decimal digits of `n` as characters, most significant first, without
/// leading zeros.
pub open spec fn decimal(n: nat) -> Seq<u8>
    decreases n,
{
    if n < 10 {
        seq![(48 + n) as u8]
    } else {
        decimal(n / 10).push((48 + n % 10) as u8)
    }
}

/// The head of a binary portable pixmap: the magic `P6`, then width and
/// height in decimal, then the greatest level `255`, each followed by one
/// white-space character.
pub open spec fn pixmap_head(width: nat, height: nat) -> Seq<u8> {
    seq![80u8, 54u8, 10u8] + decimal(width) + seq![32u8] + decimal(height) + seq![
        10u8,
        50u8,
        53u8,
        53u8,
        10u8,
    ]
}

/// A frame as a binary portable pixmap: the head, then the colours row by row
/// without alpha.
pub open spec fn pixmap(f: FrameModel) -> Seq<u8> {
    pixmap_head(f.width, f.height) + rgb_bytes(f.color)
}

/// Appends the decimal digits of `n` to `out`.
fn push_decimal(out: &mut Vec<u8>, n: usize)
    ensures
        final(out)@ == old(out)@ + decimal(n as nat),
    decreases n,
{
    if n >= 10 {
        push_decimal(out, n / 10);
    }
    out.push(48 + (n % 10) as u8);
}

/// A colour raster and a depth raster of the same size.
pub struct Framebuffer {
    width: usize,
    height: usize,
    color: Vec<Color>,
    depth: Vec<Fx>,
}

impl View for Framebuffer {
    type V = FrameModel;

    closed spec fn view(&self) -> FrameModel {
        FrameModel {
            width: self.width as nat,
            height: self.height as nat,
            color: self.color@,
            depth: Seq::new(self.depth@.len(), |i: int| self.depth@[i]@),
        }
    }
}

impl Framebuffer {
    /// Both rasters hold one entry per pixel.
    pub closed spec fn wf(&self) -> bool {
        &&& self.width * self.height <= usize::MAX
        &&& self.color@.len() == self.width * self.height
        &&& self.depth@.len() == self.width * self.height
    }

    /// In a well-formed frame buffer the model's rasters have one entry per
    /// pixel and the depths are raw scalars.
    pub proof fn lemma_wf_model(&self)
        requires
            self.wf(),
        ensures
            self@.color.len() == self@.width * self@.height,
            self@.depth.len() == self@.width * self@.height,
            self@.width * self@.height <= usize::MAX,
            forall|i: int|
                0 <= i < self@.depth.len() ==> -0x8000_0000_0000_0000 <= #[trigger] self@.depth[i]
                    <= 0x7fff_ffff_ffff_ffff,
    {
    }

    /// A frame buffer of the given size, every pixel black and at the
    /// farthest depth.
    pub fn new(width: usize, height: usize) -> (fb: Framebuffer)
        requires
            width * height <= usize::MAX,
        ensures
            fb.wf(),
            fb@ =~= blank_frame(width as nat, height as nat),
    {
        let count: usize = width * height;
        let mut color: Vec<Color> = Vec::new();
        let mut depth: Vec<Fx> = Vec::new();
        let mut i: usize = 0;
        while i < count
            invariant
                i <= count,
                color@.len() == i,
                depth@.len() == i,
                forall|k: int| 0 <= k < i ==> color@[k] == (Color { r: 0, g: 0, b: 0, a: 255 }),
                forall|k: int| 0 <= k < i ==> (#[trigger] depth@[k])@ == 0x7fff_ffff_ffff_ffff,
            decreases count - i,
        {
            color.push(Color { r: 0, g: 0, b: 0, a: 255 });
            depth.push(Fx { raw: FAR_DEPTH_RAW });
            i = i + 1;
        }
        Framebuffer { width, height, color, depth }
    }

    /// Number of pixels in a row.
    pub fn width(&self) -> (w: usize)
        ensures
            w == self@.width,
    {
        self.width
    }

    /// Number of rows.
    pub fn height(&self) -> (h: usize)
        ensures
            h == self@.height,
    {
        self.height
    }

    /// The colour raster, row by row from the top.
    pub fn pixels(&self) -> (p: &Vec<Color>)
        ensures
            p@ == self@.color,
    {
        &self.color
    }

    /// The colour of the pixel in column `x` of row `y`.
    pub fn color_at(&self, x: usize, y: usize) -> (c: Color)
        requires
            self.wf(),
            x < self@.width,
            y < self@.height,
        ensures
            c == self@.color[y * self@.width + x],
    {
        proof {
            lemma_pixel_index(x as int, y as int, self.width as int, self.height as int);
        }
        self.color[y * self.width + x]
    }

    /// The depth of the pixel in column `x` of row `y`.
    pub fn depth_at(&self, x: usize, y: usize) -> (d: Fx)
        requires
            self.wf(),
            x < self@.width,
            y < self@.height,
        ensures
            d@ == self@.depth[y * self@.width + x],
    {
        proof {
            lemma_pixel_index(x as int, y as int, self.width as int, self.height as int);
        }
        self.depth[y * self.width + x]
    }

    /// Fills the colour raster with `c`; the depths stay.
    pub fn clear_color(&mut self, c: Color)
        requires
            old(self).wf(),
        ensures
            final(self).wf(),
            final(self)@ =~= frame_with_color(old(self)@, c),
    {
        let count = self.color.len();
        let mut i: usize = 0;
        while i < count
            invariant
                i <= count,
                self.color@.len() == count,
                self.width == old(self).width,
                self.height == old(self).height,
                self.depth == old(self).depth,
                self.wf(),
                forall|k: int| 0 <= k < i ==> self.color@[k] == c,
            decreases count - i,
        {
            self.color[i] = c;
            i = i + 1;
        }
    }

    /// Fills the depth raster with the farthest value; the colours stay.
    pub fn clear_depth(&mut self)
        requires
            old(self).wf(),
        ensures
            final(self).wf(),
            final(self)@ =~= frame_with_far_depth(old(self)@),
    {
        let count = self.depth.len();
        let mut i: usize = 0;
        while i < count
            invariant
                i <= count,
                self.depth@.len() == count,
                self.width == old(self).width,
                self.height == old(self).height,
                self.color == old(self).color,
                self.wf(),
                forall|k: int| 0 <= k < i ==> (#[trigger] self.depth@[k])@ == 0x7fff_ffff_ffff_ffff,
            decreases count - i,
        {
            self.depth[i] = Fx { raw: FAR_DEPTH_RAW };
            i = i + 1;
        }
    }

    /// Replaces both rasters by cleared ones of the new size.
    pub fn resize(&mut self, width: usize, height: usize)
        requires
            width * height <= usize::MAX,
        ensures
            final(self).wf(),
            final(self)@ =~= blank_frame(width as nat, height as nat),
    {
        *self = Framebuffer::new(width, height);
    }

    /// Offers a fragment to the pixel in column `x` of row `y`.
    ///
    /// The fragment is kept, colour and depth, only if its depth is strictly
    /// less than the depth the pixel holds; on a tie the pixel stays as it is.
    /// Returns whether the fragment was kept.
    pub fn plot(&mut self, x: usize, y: usize, c: Color, depth: Fx) -> (kept: bool)
        requires
            old(self).wf(),
            x < old(self)@.width,
            y < old(self)@.height,
        ensures
            final(self).wf(),
            final(self)@ =~= frame_with_fragment(
                old(self)@,
                y * old(self)@.width + x,
                c,
                depth@,
            ),
            kept == (depth@ < old(self)@.depth[y * old(self)@.width + x]),
    {
        proof {
            lemma_pixel_index(x as int, y as int, self.width as int, self.height as int);
        }
        let i = y * self.width + x;
        if depth.raw < self.depth[i].raw {
            self.color[i] = c;
            self.depth[i] = depth;
            true
        } else {
            false
        }
    }

    /// Whether a fragment of the given depth would be kept by the pixel in
    /// column `x` of row `y`.
    pub fn passes(&self, x: usize, y: usize, depth: Fx) -> (r: bool)
        requires
            self.wf(),
            x < self@.width,
            y < self@.height,
        ensures
            r == (depth@ < self@.depth[y * self@.width + x]),
    {
        proof {
            lemma_pixel_index(x as int, y as int, self.width as int, self.height as int);
        }
        depth.raw < self.depth[y * self.width + x].raw
    }

    /// The frame as a still picture: the bytes of a binary portable pixmap
    /// with the colours of the frame, alpha left out.
    pub fn to_pixmap(&self) -> (bytes: Vec<u8>)
        ensures
            bytes@ =~= pixmap(self@),
    {
        let mut bytes: Vec<u8> = Vec::new();
        bytes.push(80);
        bytes.push(54);
        bytes.push(10);
        push_decimal(&mut bytes, self.width);
        bytes.push(32);
        push_decimal(&mut bytes, self.height);
        bytes.push(10);
        bytes.push(50);
        bytes.push(53);
        bytes.push(53);
        bytes.push(10);
        let ghost head = bytes@;
        assert(head =~= pixmap_head(self.width as nat, self.height as nat));
        let count = self.color.len();
        let mut i: usize = 0;
        while i < count
            invariant
                i <= count,
                count == self.color@.len(),
                bytes@.len() == head.len() + 3 * i,
                forall|k: int| 0 <= k < head.len() ==> bytes@[k] == head[k],
                forall|k: int|
                    0 <= k < 3 * i ==> bytes@[head.len() + k] == rgb_bytes(self.color@)[k],
            decreases count - i,
        {
            let c = self.color[i];
            bytes.push(c.r);
            bytes.push(c.g);
            bytes.push(c.b);
            i = i + 1;
        }
        bytes
    }

    /// The colour raster as bytes, four per pixel: red, green, blue, alpha.
    pub fn to_rgba(&self) -> (bytes: Vec<u8>)
        ensures
            bytes@ =~= rgba_bytes(self@.color),
    {
        let mut bytes: Vec<u8> = Vec::new();
        let count = self.color.len();
        let mut i: usize = 0;
        while i < count
            invariant
                i <= count,
                count == self.color@.len(),
                bytes@.len() == 4 * i,
                forall|k: int| 0 <= k < 4 * i ==> bytes@[k] == rgba_bytes(self.color@)[k],
            decreases count - i,
        {
            let c = self.color[i];
            bytes.push(c.r);
            bytes.push(c.g);
            bytes.push(c.b);
            bytes.push(c.a);
            i = i + 1;
        }
        bytes
    }
}

/// The index of a pixel inside the frame lies inside the rasters.
pub proof fn lemma_pixel_index(x: int, y: int, width: int, height: int)
    requires
        0 <= x < width,
        0 <= y < height,
    ensures
        0 <= y * width + x < width * height,
        y * width >= 0,
{
    assert(y * width + x < width * height && y * width >= 0) by (nonlinear_arith)
        requires
            0 <= x < width,
            0 <= y < height,
    ;
}

} // verus!
