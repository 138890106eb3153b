//! The glyph table: glyph descriptors, the packed bit blob and lookup.

use vstd::arithmetic::power2::pow2;
use vstd::bits::lemma_u8_shr_is_div;
use vstd::prelude::*;
use crate::geometry::{Point, Rectangle};
use crate::ops::DrawOp;

verus! {

/// One character's shape: where its bitmap lies and how far the cursor moves.
#[derive(Clone, Copy, Debug, PartialEq, Eq)]
pub struct BdfGlyph {
    /// The character that the glyph stands for: the key of the lookup.
    pub character: char,
    /// Where the bitmap is painted, relative to the draw position.
    pub bounding_box: Rectangle,
    /// How many columns the cursor moves after the glyph.
    pub device_width: u32,
    /// The bit offset in the blob at which the glyph's bits begin, one bit
    /// for each point of the bounding box in row-major order.
    pub start_index: usize,
}

/// A bitmap font: glyphs sorted by character and the bits they share.
#[derive(Clone, Copy, Debug, PartialEq, Eq)]
pub struct BdfFont<'a> {
    /// The index of the glyph that stands for characters without one.
    pub replacement_character: usize,
    /// The glyphs, in strictly ascending order of their characters.
    pub glyphs: &'a [BdfGlyph],
    /// The bits of all glyphs, one bit for each pixel.
    pub data: &'a [u8],
    /// The nominal size of the font in pixels.
    pub pixel_size: u32,
    /// The rows above the alphabetic baseline.
    pub font_ascent: u32,
    /// The rows below the alphabetic baseline.
    pub font_descent: u32,
}

/// Bit `index` of the blob: bits are packed least significant first within
/// consecutive bytes, so bit `index` is the binary digit of weight
/// `2^(index % 8)` of byte `index / 8`.
pub open spec fn bit_is_set(data: Seq<u8>, index: int) -> bool
    recommends
        0 <= index < 8 * data.len(),
{
    (data[index / 8] as int / pow2((index % 8) as nat) as int) % 2 == 1
}

/// Strictly ascending by character, so no character occurs twice.
pub open spec fn sorted_by_character(glyphs: Seq<BdfGlyph>) -> bool {
    forall|i: int, j: int|
        0 <= i < j < glyphs.len() ==> (#[trigger] glyphs[i]).character < (
        #[trigger] glyphs[j]).character
}

/// The table holds a glyph for `c`.
pub open spec fn has_glyph(glyphs: Seq<BdfGlyph>, c: char) -> bool {
    exists|i: int| 0 <= i < glyphs.len() && (#[trigger] glyphs[i]).character == c
}

/// Reads bit `index` of the blob.
pub fn read_bit(data: &[u8], index: usize) -> (b: bool)
    requires
        index < 8 * data@.len(),
    ensures
        b == bit_is_set(data@, index as int),
{
    let byte: u8 = data[index / 8];
    let shift: u8 = (index % 8) as u8;
    let shifted: u8 = byte >> shift;
    proof {
        lemma_u8_shr_is_div(byte, shift);
        assert((shifted & 1u8 == 1u8) == (shifted % 2u8 == 1u8)) by (bit_vector);
    }
    shifted & 1u8 == 1u8
}

impl BdfGlyph {
    /// The glyph's bits lie within a blob of `data_len` bytes.
    pub open spec fn bits_within(self, data_len: int) -> bool {
        &&& self.start_index + self.bounding_box.area() <= 8 * data_len
        &&& self.start_index + self.bounding_box.area() <= usize::MAX
    }

    /// Tests whether the glyph's bits lie within a blob of `data_len` bytes.
    pub fn has_bits_within(&self, data_len: usize) -> (ok: bool)
        ensures
            ok == self.bits_within(data_len as int),
    {
        let width: u128 = self.bounding_box.size.width as u128;
        let height: u128 = self.bounding_box.size.height as u128;
        assert(width * height <= 0xffff_ffff_0000_0000u128) by (nonlinear_arith)
            requires
                width <= 0xffff_ffffu128,
                height <= 0xffff_ffffu128,
        ;
        let end: u128 = (self.start_index as u128) + width * height;
        end <= 8 * (data_len as u128) && end <= (usize::MAX as u128)
    }

    /// The glyph's `i`-th bit in the blob.
    pub open spec fn bit(self, data: Seq<u8>, i: int) -> bool {
        bit_is_set(data, self.start_index + i)
    }

    /// The operations that paint the glyph's first `n` pixels at `position`,
    /// in row-major order: a set bit writes `color`; a clear bit writes the
    /// background color where there is one and nothing where there is none.
    pub open spec fn draw_ops<C>(
        self,
        position: Point,
        color: C,
        bg_color: Option<C>,
        data: Seq<u8>,
        n: int,
    ) -> Seq<DrawOp<C>>
        decreases n,
    {
        if n <= 0 {
            Seq::empty()
        } else {
            let before = self.draw_ops(position, color, bg_color, data, n - 1);
            let point = self.bounding_box.spec_translate(position).point_at(n - 1);
            if self.bit(data, n - 1) {
                before.push(DrawOp::Pixel(point, color))
            } else {
                match bg_color {
                    Some(c) => before.push(DrawOp::Pixel(point, c)),
                    None => before,
                }
            }
        }
    }

    /// The operations that paint the whole glyph at `position`.
    pub open spec fn spec_draw<C>(
        self,
        position: Point,
        color: C,
        bg_color: Option<C>,
        data: Seq<u8>,
    ) -> Seq<DrawOp<C>> {
        self.draw_ops(position, color, bg_color, data, self.bounding_box.area())
    }

    /// How many of the glyph's first `n` bits are set.
    pub open spec fn set_bits(self, data: Seq<u8>, n: int) -> int
        decreases n,
    {
        if n <= 0 {
            0
        } else {
            self.set_bits(data, n - 1) + if self.bit(data, n - 1) {
                1int
            } else {
                0int
            }
        }
    }

    /// `op` writes `color` at the point of one of the first `n` bits, and
    /// that bit is set.
    pub open spec fn paints_set_bit<C>(
        self,
        op: DrawOp<C>,
        position: Point,
        color: C,
        data: Seq<u8>,
        n: int,
    ) -> bool {
        exists|i: int|
            0 <= i < n && #[trigger] self.bit(data, i) && op == DrawOp::Pixel(
                self.bounding_box.spec_translate(position).point_at(i),
                color,
            )
    }

    /// Without a background color one write is made for each set bit and
    /// none for a clear bit: every operation is a write of `color` at the
    /// point of some set bit, and there are as many operations as set bits.
    pub proof fn lemma_transparent_draw<C>(self, position: Point, color: C, data: Seq<u8>, n: int)
        requires
            0 <= n,
        ensures
            self.draw_ops(position, color, None, data, n).len() == self.set_bits(data, n),
            forall|k: int|
                0 <= k < self.draw_ops(position, color, None, data, n).len()
                    ==> self.paints_set_bit(
                    #[trigger] self.draw_ops(position, color, None, data, n)[k],
                    position,
                    color,
                    data,
                    n,
                ),
        decreases n,
    {
        if n > 0 {
            self.lemma_transparent_draw(position, color, data, n - 1);
            let before = self.draw_ops(position, color, None, data, n - 1);
            let ops = self.draw_ops(position, color, None, data, n);
            assert forall|k: int| 0 <= k < ops.len() implies self.paints_set_bit(
                #[trigger] ops[k],
                position,
                color,
                data,
                n,
            ) by {
                if k < before.len() {
                    assert(self.paints_set_bit(before[k], position, color, data, n - 1));
                    let i = choose|i: int|
                        0 <= i < n - 1 && #[trigger] self.bit(data, i) && before[k]
                            == DrawOp::Pixel(
                            self.bounding_box.spec_translate(position).point_at(i),
                            color,
                        );
                    assert(ops[k] == before[k]);
                    assert(0 <= i < n && self.bit(data, i));
                } else {
                    assert(self.bit(data, n - 1));
                }
            }
        }
    }

    /// With a background color every point of the bounding box gets exactly
    /// one write, in row-major order: `color` where the bit is set and the
    /// background color where it is clear.
    pub proof fn lemma_opaque_draw<C>(
        self,
        position: Point,
        color: C,
        background: C,
        data: Seq<u8>,
        n: int,
    )
        requires
            0 <= n,
        ensures
            self.draw_ops(position, color, Some(background), data, n).len() == n,
            forall|i: int|
                0 <= i < n ==> #[trigger] self.draw_ops(position, color, Some(background), data, n)[i]
                    == DrawOp::Pixel(
                    self.bounding_box.spec_translate(position).point_at(i),
                    if self.bit(data, i) {
                        color
                    } else {
                        background
                    },
                ),
        decreases n,
    {
        if n > 0 {
            self.lemma_opaque_draw(position, color, background, data, n - 1);
        }
    }

    /// Decodes the glyph's bitmap into pixel writes at `position`.
    pub fn draw<C: Copy>(
        &self,
        position: Point,
        color: C,
        bg_color: Option<C>,
        data: &[u8],
    ) -> (ops: Vec<DrawOp<C>>)
        requires
            self.bits_within(data@.len() as int),
            self.bounding_box.fits_at(position),
        ensures
            ops@ == self.spec_draw(position, color, bg_color, data@),
            bg_color is None ==> {
                &&& ops@.len() == self.set_bits(data@, self.bounding_box.area())
                &&& forall|k: int|
                    0 <= k < ops@.len() ==> self.paints_set_bit(
                        #[trigger] ops@[k],
                        position,
                        color,
                        data@,
                        self.bounding_box.area(),
                    )
            },
            bg_color is Some ==> {
                &&& ops@.len() == self.bounding_box.area()
                &&& forall|i: int|
                    0 <= i < self.bounding_box.area() ==> #[trigger] ops@[i] == DrawOp::Pixel(
                        self.bounding_box.spec_translate(position).point_at(i),
                        if self.bit(data@, i) {
                            color
                        } else {
                            bg_color->0
                        },
                    )
            },
    {
        let mut ops: Vec<DrawOp<C>> = Vec::new();
        let area = self.bounding_box.translate(position);
        let width: u64 = area.size.width as u64;
        let height: u64 = area.size.height as u64;
        assert(width * height <= usize::MAX);
        assert(width * height == self.bounding_box.area());
        let count: usize = (width * height) as usize;
        let mut i: usize = 0;
        while i < count
            invariant
                0 <= i <= count,
                count == self.bounding_box.area(),
                count == width * height,
                width == self.bounding_box.size.width,
                height == self.bounding_box.size.height,
                area == self.bounding_box.spec_translate(position),
                self.bits_within(data@.len() as int),
                self.bounding_box.fits_at(position),
                ops@ == self.draw_ops(position, color, bg_color, data@, i as int),
            decreases count - i,
        {
            assert(width > 0) by (nonlinear_arith)
                requires
                    i < width * height,
            ;
            let column: u64 = (i as u64) % width;
            let row: u64 = (i as u64) / width;
            assert(row < height) by (nonlinear_arith)
                requires
                    row == (i as int) / (width as int),
                    i < width * height,
                    width > 0,
            ;
            let point = Point {
                x: ((area.top_left.x as i64) + (column as i64)) as i32,
                y: ((area.top_left.y as i64) + (row as i64)) as i32,
            };
            assert(point == area.point_at(i as int));
            if read_bit(data, self.start_index + i) {
                ops.push(DrawOp::Pixel(point, color));
            } else {
                match bg_color {
                    Some(c) => {
                        ops.push(DrawOp::Pixel(point, c));
                    },
                    None => {},
                }
            }
            i = i + 1;
        }
        proof {
            match bg_color {
                Some(c) => self.lemma_opaque_draw(position, color, c, data@, count as int),
                None => self.lemma_transparent_draw(position, color, data@, count as int),
            }
        }
        ops
    }
}

impl<'a> BdfFont<'a> {
    /// The table can be searched: the replacement index is in range and the
    /// glyphs are sorted by character.
    pub open spec fn table_wf(self) -> bool {
        &&& self.replacement_character < self.glyphs@.len()
        &&& sorted_by_character(self.glyphs@)
    }

    /// Ascent and descent are at most `i32::MAX`.
    pub open spec fn metrics_fit(self) -> bool {
        &&& self.font_ascent <= i32::MAX
        &&& self.font_descent <= i32::MAX
    }

    /// What drawing and measuring ask of a font: the table can be searched,
    /// each glyph's bits lie within the blob, and the metrics fit.
    pub open spec fn wf(self) -> bool {
        &&& self.table_wf()
        &&& forall|i: int|
            0 <= i < self.glyphs@.len() ==> (#[trigger] self.glyphs@[i]).bits_within(
                self.data@.len() as int,
            )
        &&& self.metrics_fit()
    }

    /// The glyph that stands for `c`: the table's entry for it, or the
    /// replacement glyph where the table has none.
    pub open spec fn glyph_for(self, c: char) -> BdfGlyph {
        if has_glyph(self.glyphs@, c) {
            let i = choose|i: int| 0 <= i < self.glyphs@.len() && (#[trigger] self.glyphs@[i]).character == c;
            self.glyphs@[i]
        } else {
            self.glyphs@[self.replacement_character as int]
        }
    }

    /// Tests whether the font is well formed.
    pub fn is_valid(&self) -> (ok: bool)
        ensures
            ok == self.wf(),
    {
        if self.replacement_character >= self.glyphs.len() || self.font_ascent > 0x7fff_ffffu32
            || self.font_descent > 0x7fff_ffffu32 {
            return false;
        }
        let mut i: usize = 0;
        while i < self.glyphs.len()
            invariant
                0 <= i <= self.glyphs@.len(),
                sorted_by_character(self.glyphs@.take(i as int)),
                forall|k: int|
                    0 <= k < i ==> (#[trigger] self.glyphs@[k]).bits_within(
                        self.data@.len() as int,
                    ),
            decreases self.glyphs@.len() - i,
        {
            if !self.glyphs[i].has_bits_within(self.data.len()) {
                return false;
            }
            if i > 0 && self.glyphs[i - 1].character >= self.glyphs[i].character {
                assert(!sorted_by_character(self.glyphs@));
                return false;
            }
            proof {
                let before = self.glyphs@.take(i as int);
                let next = self.glyphs@.take(i + 1);
                assert forall|a: int, b: int| 0 <= a < b < next.len() implies (#[trigger] next[a]).character
                    < (#[trigger] next[b]).character by {
                    if b < i {
                        assert(before[a].character < before[b].character);
                    } else if a < i - 1 {
                        assert(before[a].character < before[i - 1].character);
                    }
                }
            }
            i = i + 1;
        }
        assert(self.glyphs@.take(i as int) =~= self.glyphs@);
        true
    }

    /// Looks `c` up by binary search. In a sorted table the result is the
    /// glyph whose character is `c`, or the replacement glyph where there is
    /// none; in any table it is one of the table's glyphs.
    pub fn get_glyph(&self, c: char) -> (g: &'a BdfGlyph)
        requires
            self.replacement_character < self.glyphs@.len(),
        ensures
            exists|i: int| 0 <= i < self.glyphs@.len() && self.glyphs@[i] == *g,
            self.table_wf() ==> *g == self.glyph_for(c),
            self.table_wf() && has_glyph(self.glyphs@, c) ==> g.character == c,
            self.table_wf() && !has_glyph(self.glyphs@, c) ==> *g
                == self.glyphs@[self.replacement_character as int],
            self.wf() ==> g.bits_within(self.data@.len() as int),
    {
        let glyphs: &'a [BdfGlyph] = self.glyphs;
        let mut lo: usize = 0;
        let mut hi: usize = glyphs.len();
        while lo < hi
            invariant
                glyphs@ == self.glyphs@,
                0 <= lo <= hi <= glyphs@.len(),
                sorted_by_character(glyphs@) ==> forall|i: int|
                    0 <= i < lo ==> (#[trigger] glyphs@[i]).character < c,
                sorted_by_character(glyphs@) ==> forall|i: int|
                    hi <= i < glyphs@.len() ==> c < (#[trigger] glyphs@[i]).character,
            decreases hi - lo,
        {
            let mid: usize = lo + (hi - lo) / 2;
            let probe: char = glyphs[mid].character;
            if probe == c {
                assert(has_glyph(glyphs@, c));
                return &glyphs[mid];
            } else if probe < c {
                lo = mid + 1;
            } else {
                hi = mid;
            }
        }
        assert(sorted_by_character(glyphs@) ==> !has_glyph(glyphs@, c));
        &glyphs[self.replacement_character]
    }
}

} // verus!
