//! Text styling, layout and measurement.

use vstd::prelude::*;
use crate::font::BdfFont;
use crate::geometry::{Point, Rectangle, Size};
use crate::ops::DrawOp;

verus! {

/// The horizontal line that anchors text vertically.
#[derive(Clone, Copy, Debug, PartialEq, Eq)]
pub enum Baseline {
    Top,
    Bottom,
    Middle,
    Alphabetic,
}

/// The color of an underline or a strikethrough.
#[derive(Clone, Copy, Debug, PartialEq, Eq)]
pub enum DecorationColor<C> {
    /// The decoration is not drawn.
    Off,
    /// The decoration has the text color that is current when it is drawn.
    TextColor,
    /// The decoration has a color of its own.
    Custom(C),
}

/// What a string occupies, and where the next one starts.
#[derive(Clone, Copy, Debug, PartialEq, Eq)]
pub struct TextMetrics {
    /// The rectangle that the text occupies.
    pub bounding_box: Rectangle,
    /// The position at which text that follows on the same line starts.
    pub next_position: Point,
}

/// A font together with colors, decorations and a line height adjustment.
#[derive(Clone, Copy, Debug)]
pub struct BdfTextStyle<'a, C> {
    /// The font that the text is drawn in.
    pub font: &'a BdfFont<'a>,
    /// Text (foreground) color.
    pub text_color: C,
    /// Background color; with `None` background pixels are not drawn.
    pub background_color: Option<C>,
    /// Underline decoration color.
    pub underline_color: DecorationColor<C>,
    /// Strikethrough decoration color.
    pub strikethrough_color: DecorationColor<C>,
    /// Pixels added to the font's ascent to give the line height.
    pub height_adjust: i32,
}

impl<'a, C: Copy> BdfTextStyle<'a, C> {
    /// The font's metrics fit, and ascent plus adjustment is at most
    /// `i32::MAX`.
    pub open spec fn metrics_fit(self) -> bool {
        &&& self.font.metrics_fit()
        &&& self.font.font_ascent + self.height_adjust <= i32::MAX
    }

    /// The style's font is well formed and its metrics fit.
    pub open spec fn wf(self) -> bool {
        &&& self.font.wf()
        &&& self.metrics_fit()
    }

    /// The line height: ascent plus adjustment, and at least zero.
    pub open spec fn spec_line_height(self) -> int {
        if self.font.font_ascent + self.height_adjust < 0 {
            0
        } else {
            self.font.font_ascent + self.height_adjust
        }
    }

    /// What is taken from the row of a position anchored at `baseline` to
    /// reach the row that glyphs are drawn from. For `Top` it is one less
    /// than the line height, negated; for `Middle` half of that, rounded
    /// toward zero; for `Bottom` the descent.
    pub open spec fn spec_baseline_offset(self, baseline: Baseline) -> int {
        match baseline {
            Baseline::Top => -(self.spec_line_height() - 1),
            Baseline::Middle => if self.spec_line_height() == 0 {
                0
            } else {
                -((self.spec_line_height() - 1) / 2)
            },
            Baseline::Alphabetic => 0,
            Baseline::Bottom => self.font.font_descent as int,
        }
    }

    /// The color that a decoration is drawn in, if it is drawn.
    pub open spec fn spec_decoration_color(self, dc: DecorationColor<C>) -> Option<C> {
        match dc {
            DecorationColor::TextColor => Some(self.text_color),
            DecorationColor::Custom(c) => Some(c),
            DecorationColor::Off => None,
        }
    }

    /// The one pixel tall line of `width` columns that lies `offset` rows
    /// below `position`.
    pub open spec fn decoration_line(width: u32, position: Point, offset: int) -> Rectangle {
        Rectangle {
            top_left: Point { x: position.x, y: (position.y + offset) as i32 },
            size: Size { width, height: 1 },
        }
    }

    /// The rows of the decorations that are switched on are `i32`s.
    pub open spec fn decorations_fit(self, position: Point) -> bool {
        &&& self.strikethrough_color !is Off ==> i32::MIN <= position.y
            + self.spec_baseline_offset(Baseline::Middle) + 1 <= i32::MAX
        &&& self.underline_color !is Off ==> position.y + 1 <= i32::MAX
    }

    /// The fills that decorate a glyph of `width` columns at `position`: the
    /// strikethrough first, then the underline, each only if switched on.
    pub open spec fn spec_decorations(self, width: u32, position: Point) -> Seq<DrawOp<C>> {
        let strike = match self.spec_decoration_color(self.strikethrough_color) {
            Some(c) => seq![
                DrawOp::FillSolid(
                    Self::decoration_line(
                        width,
                        position,
                        self.spec_baseline_offset(Baseline::Middle) + 1,
                    ),
                    c,
                ),
            ],
            None => Seq::empty(),
        };
        let under = match self.spec_decoration_color(self.underline_color) {
            Some(c) => seq![DrawOp::FillSolid(Self::decoration_line(width, position, 1), c)],
            None => Seq::empty(),
        };
        strike + under
    }

    /// The sum of the advances of the glyphs that stand for `text`.
    pub open spec fn advance(self, text: Seq<char>) -> int
        decreases text.len(),
    {
        if text.len() == 0 {
            0
        } else {
            self.advance(text.drop_last()) + self.font.glyph_for(text.last()).device_width
        }
    }

    /// Where the glyph after `before` is drawn on a line that starts at `origin`.
    pub open spec fn cursor(self, before: Seq<char>, origin: Point) -> Point {
        Point { x: (origin.x + self.advance(before)) as i32, y: origin.y }
    }

    /// Every coordinate met while `text` is laid out from `origin` is an `i32`.
    pub open spec fn layout_fits(self, text: Seq<char>, origin: Point) -> bool
        decreases text.len(),
    {
        text.len() == 0 || {
            let glyph = self.font.glyph_for(text.last());
            let at = self.cursor(text.drop_last(), origin);
            &&& self.layout_fits(text.drop_last(), origin)
            &&& origin.x + self.advance(text) <= i32::MAX
            &&& glyph.bounding_box.fits_at(at)
            &&& self.decorations_fit(at)
        }
    }

    /// The operations that draw `text` on a line that starts at `origin`:
    /// for each character in turn its glyph's pixels, then its decorations.
    pub open spec fn layout_ops(self, text: Seq<char>, origin: Point) -> Seq<DrawOp<C>>
        decreases text.len(),
    {
        if text.len() == 0 {
            Seq::empty()
        } else {
            let glyph = self.font.glyph_for(text.last());
            let at = self.cursor(text.drop_last(), origin);
            self.layout_ops(text.drop_last(), origin) + glyph.spec_draw(
                at,
                self.text_color,
                self.background_color,
                self.font.data@,
            ) + self.spec_decorations(glyph.device_width, at)
        }
    }

    /// The start of the line on which text anchored at `position` is drawn.
    pub open spec fn line_origin(self, position: Point, baseline: Baseline) -> Point {
        Point { x: position.x, y: (position.y - self.spec_baseline_offset(baseline)) as i32 }
    }

    /// `draw_string` stays within `i32` coordinates on these arguments.
    pub open spec fn draw_fits(self, text: Seq<char>, position: Point, baseline: Baseline) -> bool {
        &&& i32::MIN <= position.y - self.spec_baseline_offset(baseline) <= i32::MAX
        &&& self.layout_fits(text, self.line_origin(position, baseline))
    }

    /// `measure_string` stays within `u32` sizes and `i32` coordinates on
    /// these arguments.
    pub open spec fn measure_fits(self, text: Seq<char>, position: Point, baseline: Baseline) -> bool {
        &&& self.advance(text) <= u32::MAX
        &&& position.x + self.advance(text) <= i32::MAX
        &&& i32::MIN <= position.y - (self.spec_baseline_offset(baseline) + self.spec_line_height())
            <= i32::MAX
    }

    /// The metrics of `text` anchored at `position`: a box as wide as the
    /// advance and as high as line height plus descent, whose top lies one
    /// line height above the line on which the text is drawn.
    pub open spec fn spec_measure_string(
        self,
        text: Seq<char>,
        position: Point,
        baseline: Baseline,
    ) -> TextMetrics {
        TextMetrics {
            bounding_box: Rectangle {
                top_left: Point {
                    x: position.x,
                    y: (position.y - (self.spec_baseline_offset(baseline)
                        + self.spec_line_height())) as i32,
                },
                size: Size {
                    width: self.advance(text) as u32,
                    height: (self.spec_line_height() + self.font.font_descent) as u32,
                },
            },
            next_position: Point { x: (position.x + self.advance(text)) as i32, y: position.y },
        }
    }

    /// A style that draws `font` in `color`: no background, no decorations,
    /// no height adjustment.
    pub fn new(font: &'a BdfFont<'a>, color: C) -> (style: Self)
        ensures
            style == (BdfTextStyle {
                font,
                text_color: color,
                background_color: None,
                underline_color: DecorationColor::Off,
                strikethrough_color: DecorationColor::Off,
                height_adjust: 0,
            }),
    {
        BdfTextStyle {
            font,
            text_color: color,
            background_color: None,
            underline_color: DecorationColor::Off,
            strikethrough_color: DecorationColor::Off,
            height_adjust: 0,
        }
    }

    /// The same style with background pixels drawn in `bg_color`.
    pub fn with_bg_color(self, bg_color: C) -> (style: Self)
        ensures
            style == (BdfTextStyle { background_color: Some(bg_color), ..self }),
    {
        BdfTextStyle { background_color: Some(bg_color), ..self }
    }

    /// The same style with a strikethrough in the text color.
    pub fn strikethrough(self) -> (style: Self)
        ensures
            style == (BdfTextStyle { strikethrough_color: DecorationColor::TextColor, ..self }),
    {
        BdfTextStyle { strikethrough_color: DecorationColor::TextColor, ..self }
    }

    /// The same style without a strikethrough.
    pub fn reset_strikethrough(self) -> (style: Self)
        ensures
            style == (BdfTextStyle { strikethrough_color: DecorationColor::Off, ..self }),
    {
        BdfTextStyle { strikethrough_color: DecorationColor::Off, ..self }
    }

    /// The same style with an underline in the text color.
    pub fn underline(self) -> (style: Self)
        ensures
            style == (BdfTextStyle { underline_color: DecorationColor::TextColor, ..self }),
    {
        BdfTextStyle { underline_color: DecorationColor::TextColor, ..self }
    }

    /// The same style without an underline.
    pub fn reset_underline(self) -> (style: Self)
        ensures
            style == (BdfTextStyle { underline_color: DecorationColor::Off, ..self }),
    {
        BdfTextStyle { underline_color: DecorationColor::Off, ..self }
    }

    /// The same style with `height_adjust` pixels added to the ascent.
    pub fn with_height_adjust(self, height_adjust: i32) -> (style: Self)
        ensures
            style == (BdfTextStyle { height_adjust, ..self }),
    {
        BdfTextStyle { height_adjust, ..self }
    }

    /// Sets the pixels added to the ascent.
    pub fn set_height_adjust(&mut self, height_adjust: i32)
        ensures
            *final(self) == (BdfTextStyle { height_adjust, ..*old(self) }),
    {
        self.height_adjust = height_adjust;
    }

    /// Sets the text color; `None` keeps the current one.
    pub fn set_text_color(&mut self, text_color: Option<C>)
        ensures
            *final(self) == (BdfTextStyle {
                text_color: match text_color {
                    Some(color) => color,
                    None => old(self).text_color,
                },
                ..*old(self)
            }),
    {
        if let Some(color) = text_color {
            self.text_color = color;
        }
    }

    /// Sets the background color; `None` leaves background pixels untouched.
    pub fn set_background_color(&mut self, background_color: Option<C>)
        ensures
            *final(self) == (BdfTextStyle { background_color, ..*old(self) }),
    {
        self.background_color = background_color;
    }

    /// Sets the underline color.
    pub fn set_underline_color(&mut self, underline_color: DecorationColor<C>)
        ensures
            *final(self) == (BdfTextStyle { underline_color, ..*old(self) }),
    {
        self.underline_color = underline_color;
    }

    /// Sets the strikethrough color.
    pub fn set_strikethrough_color(&mut self, strikethrough_color: DecorationColor<C>)
        ensures
            *final(self) == (BdfTextStyle { strikethrough_color, ..*old(self) }),
    {
        self.strikethrough_color = strikethrough_color;
    }

    /// Ascent plus descent plus height adjustment.
    pub fn full_height(&self) -> (h: u32)
        requires
            0 <= self.font.font_ascent + self.font.font_descent + self.height_adjust <= u32::MAX,
        ensures
            h == self.font.font_ascent + self.font.font_descent + self.height_adjust,
    {
        let sum: i64 = (self.font.font_ascent as i64) + (self.font.font_descent as i64) + (
        self.height_adjust as i64);
        sum as u32
    }

    /// Tests whether the metrics fit.
    pub fn has_fitting_metrics(&self) -> (ok: bool)
        ensures
            ok == self.metrics_fit(),
    {
        self.font.font_ascent <= 0x7fff_ffffu32 && self.font.font_descent <= 0x7fff_ffffu32 && (
        self.font.font_ascent as i64) + (self.height_adjust as i64) <= 0x7fff_ffffi64
    }

    /// Tests whether the style is well formed.
    pub fn is_valid(&self) -> (ok: bool)
        ensures
            ok == self.wf(),
    {
        self.font.is_valid() && self.has_fitting_metrics()
    }

    /// Tests whether the decorations of a glyph at `position` can be drawn.
    pub fn can_draw_decorations(&self, position: Point) -> (ok: bool)
        requires
            self.metrics_fit(),
        ensures
            ok == self.decorations_fit(position),
    {
        let strike: bool = match self.strikethrough_color {
            DecorationColor::Off => true,
            _ => {
                let row: i64 = (position.y as i64) + (self.baseline_offset(Baseline::Middle) as i64)
                    + 1;
                -0x8000_0000i64 <= row && row <= 0x7fff_ffffi64
            },
        };
        let under: bool = match self.underline_color {
            DecorationColor::Off => true,
            _ => position.y < 0x7fff_ffffi32,
        };
        strike && under
    }

    /// Tests whether `draw_string` can be called on these arguments.
    pub fn can_draw_string(&self, text: &str, position: Point, baseline: Baseline) -> (ok: bool)
        requires
            self.wf(),
        ensures
            ok == self.draw_fits(text@, position, baseline),
    {
        let line: i64 = (position.y as i64) - (self.baseline_offset(baseline) as i64);
        if line < -0x8000_0000i64 || line > 0x7fff_ffffi64 {
            return false;
        }
        let origin = Point { x: position.x, y: line as i32 };
        let mut at = origin;
        let count: usize = text.unicode_len();
        let mut k: usize = 0;
        assert(text@.take(0) =~= Seq::<char>::empty());
        while k < count
            invariant
                self.wf(),
                0 <= k <= count,
                count == text@.len(),
                origin == self.line_origin(position, baseline),
                at.y == origin.y,
                at.x == origin.x + self.advance(text@.take(k as int)),
                self.layout_fits(text@.take(k as int), origin),
            decreases count - k,
        {
            let c: char = text.get_char(k);
            let glyph = self.font.get_glyph(c);
            proof {
                let next = text@.take(k + 1);
                assert(next.drop_last() =~= text@.take(k as int));
                assert(next.last() == c);
                assert(at == self.cursor(next.drop_last(), origin));
                if self.layout_fits(text@, origin) {
                    self.lemma_layout_fits_prefix(text@, origin, k + 1);
                }
            }
            let next_x: i64 = (at.x as i64) + (glyph.device_width as i64);
            if next_x > 0x7fff_ffffi64 || !glyph.bounding_box.can_translate(at)
                || !self.can_draw_decorations(at) {
                return false;
            }
            at = Point { x: next_x as i32, y: at.y };
            k = k + 1;
        }
        assert(text@.take(count as int) =~= text@);
        true
    }

    /// Tests whether `measure_string` can be called on these arguments.
    pub fn can_measure_string(&self, text: &str, position: Point, baseline: Baseline) -> (ok: bool)
        requires
            self.wf(),
        ensures
            ok == self.measure_fits(text@, position, baseline),
    {
        let count: usize = text.unicode_len();
        let mut width: u64 = 0;
        let mut k: usize = 0;
        assert(text@.take(0) =~= Seq::<char>::empty());
        while k < count
            invariant
                self.wf(),
                0 <= k <= count,
                count == text@.len(),
                width <= u32::MAX,
                width == self.advance(text@.take(k as int)),
            decreases count - k,
        {
            let c: char = text.get_char(k);
            let glyph = self.font.get_glyph(c);
            proof {
                let next = text@.take(k + 1);
                assert(next.drop_last() =~= text@.take(k as int));
                assert(next.last() == c);
                self.lemma_advance_prefix(text@, k + 1);
            }
            width = width + (glyph.device_width as u64);
            if width > 0xffff_ffffu64 {
                return false;
            }
            k = k + 1;
        }
        assert(text@.take(count as int) =~= text@);
        let top: i64 = (position.y as i64) - ((self.baseline_offset(baseline) as i64) + (
        self.line_height() as i64));
        (position.x as i64) + (width as i64) <= 0x7fff_ffffi64 && -0x8000_0000i64 <= top && top
            <= 0x7fff_ffffi64
    }

    /// The line height in pixels.
    pub fn line_height(&self) -> (h: u32)
        requires
            self.metrics_fit(),
        ensures
            h == self.spec_line_height(),
            h <= i32::MAX,
    {
        let sum: i64 = (self.font.font_ascent as i64) + (self.height_adjust as i64);
        if sum < 0 {
            0
        } else {
            sum as u32
        }
    }

    /// The vertical offset of the alphabetic baseline from `baseline`.
    pub fn baseline_offset(&self, baseline: Baseline) -> (offset: i32)
        requires
            self.metrics_fit(),
        ensures
            offset == self.spec_baseline_offset(baseline),
    {
        let height: i32 = self.line_height() as i32;
        match baseline {
            Baseline::Top => -(height - 1),
            Baseline::Middle => if height == 0 {
                0
            } else {
                -((height - 1) / 2)
            },
            Baseline::Alphabetic => 0,
            Baseline::Bottom => self.font.font_descent as i32,
        }
    }

    /// Resolves a decoration color against the current text color.
    pub fn decoration_color_to_color(&self, dc: DecorationColor<C>) -> (color: Option<C>)
        ensures
            color == self.spec_decoration_color(dc),
    {
        match dc {
            DecorationColor::TextColor => Some(self.text_color),
            DecorationColor::Custom(custom_color) => Some(custom_color),
            DecorationColor::Off => None,
        }
    }

    /// The fills that decorate a glyph of `width` columns drawn at `position`.
    pub fn draw_decorations(&self, width: u32, position: Point) -> (ops: Vec<DrawOp<C>>)
        requires
            self.metrics_fit(),
            self.decorations_fit(position),
        ensures
            ops@ == self.spec_decorations(width, position),
    {
        let mut ops: Vec<DrawOp<C>> = Vec::new();
        if let Some(color) = self.decoration_color_to_color(self.strikethrough_color) {
            let y: i32 = position.y + (self.baseline_offset(Baseline::Middle) + 1);
            let rect = Rectangle::new(Point::new(position.x, y), Size::new(width, 1));
            ops.push(DrawOp::FillSolid(rect, color));
        }
        if let Some(color) = self.decoration_color_to_color(self.underline_color) {
            let y: i32 = position.y + (self.baseline_offset(Baseline::Alphabetic) + 1);
            let rect = Rectangle::new(Point::new(position.x, y), Size::new(width, 1));
            ops.push(DrawOp::FillSolid(rect, color));
        }
        assert(ops@ =~= self.spec_decorations(width, position));
        ops
    }

    /// Lays `text` out from `position`: the operations that draw it, in
    /// order, and the cursor after its last glyph.
    pub fn draw_string(&self, text: &str, position: Point, baseline: Baseline) -> (r: (
        Vec<DrawOp<C>>,
        Point,
    ))
        requires
            self.wf(),
            self.draw_fits(text@, position, baseline),
        ensures
            r.0@ == self.layout_ops(text@, self.line_origin(position, baseline)),
            r.1 == self.cursor(text@, self.line_origin(position, baseline)),
            r.1.x == position.x + self.advance(text@),
            r.1.y == position.y - self.spec_baseline_offset(baseline),
    {
        let origin = Point { x: position.x, y: position.y - self.baseline_offset(baseline) };
        let mut at = origin;
        let mut ops: Vec<DrawOp<C>> = Vec::new();
        let count: usize = text.unicode_len();
        let mut k: usize = 0;
        assert(text@.take(0) =~= Seq::<char>::empty());
        while k < count
            invariant
                self.wf(),
                0 <= k <= count,
                count == text@.len(),
                origin == self.line_origin(position, baseline),
                self.layout_fits(text@, origin),
                at.y == origin.y,
                at.x == origin.x + self.advance(text@.take(k as int)),
                ops@ == self.layout_ops(text@.take(k as int), origin),
            decreases count - k,
        {
            let c: char = text.get_char(k);
            let glyph = self.font.get_glyph(c);
            proof {
                let next = text@.take(k + 1);
                assert(next.drop_last() =~= text@.take(k as int));
                assert(next.last() == c);
                self.lemma_layout_fits_prefix(text@, origin, k + 1);
                assert(at == self.cursor(next.drop_last(), origin));
            }
            let mut pixels = glyph.draw(at, self.text_color, self.background_color, self.font.data);
            ops.append(&mut pixels);
            let mut lines = self.draw_decorations(glyph.device_width, at);
            ops.append(&mut lines);
            at = Point { x: ((at.x as i64) + (glyph.device_width as i64)) as i32, y: at.y };
            k = k + 1;
        }
        assert(text@.take(count as int) =~= text@);
        (ops, at)
    }

    /// The position after a gap of `width` columns. Nothing is drawn.
    pub fn draw_whitespace(&self, width: u32, position: Point, baseline: Baseline) -> (next: Point)
        requires
            position.x + width <= i32::MAX,
        ensures
            next.x == position.x + width,
            next.y == position.y,
    {
        Point { x: ((position.x as i64) + (width as i64)) as i32, y: position.y }
    }

    /// Measures `text` without drawing it.
    pub fn measure_string(&self, text: &str, position: Point, baseline: Baseline) -> (m: TextMetrics)
        requires
            self.wf(),
            self.measure_fits(text@, position, baseline),
        ensures
            m == self.spec_measure_string(text@, position, baseline),
            m.bounding_box.size.width == self.advance(text@),
            m.bounding_box.size.height == self.spec_line_height() + self.font.font_descent,
            m.next_position.x == position.x + self.advance(text@),
            m.next_position.y == position.y,
    {
        let count: usize = text.unicode_len();
        let mut width: u32 = 0;
        let mut k: usize = 0;
        assert(text@.take(0) =~= Seq::<char>::empty());
        while k < count
            invariant
                self.wf(),
                0 <= k <= count,
                count == text@.len(),
                self.advance(text@) <= u32::MAX,
                width == self.advance(text@.take(k as int)),
            decreases count - k,
        {
            let c: char = text.get_char(k);
            let glyph = self.font.get_glyph(c);
            proof {
                let next = text@.take(k + 1);
                assert(next.drop_last() =~= text@.take(k as int));
                assert(next.last() == c);
                self.lemma_advance_prefix(text@, k + 1);
            }
            width = width + glyph.device_width;
            k = k + 1;
        }
        assert(text@.take(count as int) =~= text@);
        let height: i64 = self.line_height() as i64;
        let offset: i64 = self.baseline_offset(baseline) as i64;
        let full_height: i64 = height + (self.font.font_descent as i64);
        let top: i64 = (position.y as i64) - (offset + height);
        TextMetrics {
            bounding_box: Rectangle {
                top_left: Point { x: position.x, y: top as i32 },
                size: Size { width, height: full_height as u32 },
            },
            next_position: Point { x: ((position.x as i64) + (width as i64)) as i32, y: position.y },
        }
    }

    /// Measuring and drawing agree on the advance: the measured width is
    /// the sum of the advances of the glyphs that stand for the characters,
    /// and so is the distance from the start to the cursor that drawing
    /// returns; the next position of the measurement has that cursor's
    /// column.
    pub proof fn lemma_advance_consistency(self, text: Seq<char>, position: Point, baseline: Baseline)
        requires
            self.wf(),
            self.measure_fits(text, position, baseline),
            self.draw_fits(text, position, baseline),
        ensures
            self.spec_measure_string(text, position, baseline).bounding_box.size.width
                == self.advance(text),
            self.cursor(text, self.line_origin(position, baseline)).x - position.x == self.advance(
                text,
            ),
            self.spec_measure_string(text, position, baseline).next_position.x == self.cursor(
                text,
                self.line_origin(position, baseline),
            ).x,
    {
        self.lemma_advance_prefix(text, text.len() as int);
        assert(text.take(text.len() as int) =~= text);
    }

    /// Measuring keeps no state: the metrics are a function of the style,
    /// the text, the position and the baseline, so two measurements of the
    /// same arguments are equal.
    pub proof fn lemma_measure_repeatable(
        self,
        text: Seq<char>,
        position: Point,
        baseline: Baseline,
        first: TextMetrics,
        second: TextMetrics,
    )
        requires
            first == self.spec_measure_string(text, position, baseline),
            second == self.spec_measure_string(text, position, baseline),
        ensures
            first == second,
            first.bounding_box == second.bounding_box,
            first.next_position == second.next_position,
    {
    }

    /// The advance of a prefix is at least zero and at most that of the
    /// whole text.
    pub proof fn lemma_advance_prefix(self, text: Seq<char>, k: int)
        requires
            0 <= k <= text.len(),
        ensures
            0 <= self.advance(text.take(k)) <= self.advance(text),
        decreases text.len(),
    {
        if text.len() == 0 {
            assert(text.take(k) =~= text);
        } else if k == text.len() {
            assert(text.take(k) =~= text);
            self.lemma_advance_prefix(text.drop_last(), k - 1);
            assert(text.drop_last().take(k - 1) =~= text.drop_last());
        } else {
            self.lemma_advance_prefix(text.drop_last(), k);
            assert(text.drop_last().take(k) =~= text.take(k));
        }
    }

    /// Where a text can be laid out, each of its prefixes can.
    pub proof fn lemma_layout_fits_prefix(self, text: Seq<char>, origin: Point, k: int)
        requires
            0 <= k <= text.len(),
            self.layout_fits(text, origin),
        ensures
            self.layout_fits(text.take(k), origin),
        decreases text.len(),
    {
        if k == text.len() {
            assert(text.take(k) =~= text);
        } else {
            self.lemma_layout_fits_prefix(text.drop_last(), origin, k);
            assert(text.drop_last().take(k) =~= text.take(k));
        }
    }
}

} // verus!
