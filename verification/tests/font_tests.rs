use eg_bdf::font::read_bit;
use eg_bdf::{BdfFont, BdfGlyph, DrawOp, Point, Rectangle, Size};

const DATA: [u8; 2] = [0b0010_1101, 0b0000_0011];

fn glyph(character: char, x: i32, y: i32, w: u32, h: u32, advance: u32, start: usize) -> BdfGlyph {
    BdfGlyph {
        character,
        bounding_box: Rectangle::new(Point::new(x, y), Size::new(w, h)),
        device_width: advance,
        start_index: start,
    }
}

fn glyphs() -> Vec<BdfGlyph> {
    vec![
        glyph('?', 0, 0, 0, 0, 7, 0),
        glyph('A', 0, -2, 3, 2, 4, 0),
        glyph('B', 1, -2, 2, 2, 3, 6),
        glyph('C', 0, -1, 1, 1, 2, 10),
    ]
}

fn font<'a>(glyphs: &'a [BdfGlyph], data: &'a [u8]) -> BdfFont<'a> {
    BdfFont {
        replacement_character: 0,
        glyphs,
        data,
        pixel_size: 10,
        font_ascent: 8,
        font_descent: 2,
    }
}

#[test]
fn lookup_finds_every_character_of_the_table() {
    let g = glyphs();
    let f = font(&g, &DATA);
    assert!(f.is_valid());
    for expected in g.iter() {
        let found = f.get_glyph(expected.character);
        assert_eq!(found.character, expected.character);
        assert_eq!(found, expected);
    }
}

#[test]
fn lookup_of_an_absent_character_gives_the_replacement() {
    let g = glyphs();
    let mut f = font(&g, &DATA);
    f.replacement_character = 2;
    assert_eq!(f.get_glyph('z'), &g[2]);
    assert_eq!(f.get_glyph(' '), &g[2]);
    assert_eq!(f.get_glyph('@'), &g[2]);
    assert_eq!(f.get_glyph('\u{10FFFF}'), &g[2]);
    f.replacement_character = 0;
    assert_eq!(f.get_glyph('z'), &g[0]);
}

#[test]
fn lookup_in_a_table_of_one_glyph() {
    let g = vec![glyph('x', 0, 0, 0, 0, 5, 0)];
    let f = font(&g, &DATA);
    assert_eq!(f.get_glyph('x').device_width, 5);
    assert_eq!(f.get_glyph('a'), &g[0]);
    assert_eq!(f.get_glyph('y'), &g[0]);
}

#[test]
fn bits_are_read_least_significant_first() {
    let expected = [
        true, false, true, true, false, true, false, false, true, true, false, false, false,
        false, false, false,
    ];
    for (i, bit) in expected.iter().enumerate() {
        assert_eq!(read_bit(&DATA, i), *bit, "bit {}", i);
    }
    assert!(read_bit(&[0x01], 0));
    assert!(!read_bit(&[0x01], 7));
    assert!(read_bit(&[0x80], 7));
    assert!(!read_bit(&[0x80], 0));
}

#[test]
fn transparent_draw_writes_only_set_bits() {
    let g = glyphs();
    let ops = g[1].draw(Point::new(10, 20), 1u8, None, &DATA);
    assert_eq!(
        ops,
        vec![
            DrawOp::Pixel(Point::new(10, 18), 1u8),
            DrawOp::Pixel(Point::new(12, 18), 1u8),
            DrawOp::Pixel(Point::new(10, 19), 1u8),
            DrawOp::Pixel(Point::new(12, 19), 1u8),
        ]
    );
}

#[test]
fn opaque_draw_writes_every_point_once() {
    let g = glyphs();
    let ops = g[1].draw(Point::new(10, 20), 1u8, Some(9u8), &DATA);
    assert_eq!(
        ops,
        vec![
            DrawOp::Pixel(Point::new(10, 18), 1u8),
            DrawOp::Pixel(Point::new(11, 18), 9u8),
            DrawOp::Pixel(Point::new(12, 18), 1u8),
            DrawOp::Pixel(Point::new(10, 19), 1u8),
            DrawOp::Pixel(Point::new(11, 19), 9u8),
            DrawOp::Pixel(Point::new(12, 19), 1u8),
        ]
    );
}

#[test]
fn draw_reads_bits_from_the_start_index_across_bytes() {
    let g = glyphs();
    let ops = g[2].draw(Point::new(0, 0), 1u8, Some(0u8), &DATA);
    assert_eq!(
        ops,
        vec![
            DrawOp::Pixel(Point::new(1, -2), 0u8),
            DrawOp::Pixel(Point::new(2, -2), 0u8),
            DrawOp::Pixel(Point::new(1, -1), 1u8),
            DrawOp::Pixel(Point::new(2, -1), 1u8),
        ]
    );
    let clear = g[3].draw(Point::new(5, 5), 1u8, None, &DATA);
    assert_eq!(clear, Vec::<DrawOp<u8>>::new());
}

#[test]
fn zero_area_box_draws_nothing() {
    let g = glyphs();
    assert!(g[0].draw(Point::new(3, 4), 1u8, Some(2u8), &DATA).is_empty());
    let flat = glyph('f', 0, 0, 5, 0, 5, 0);
    assert!(flat.draw(Point::new(3, 4), 1u8, Some(2u8), &DATA).is_empty());
    let thin = glyph('t', 0, 0, 0, 5, 5, 0);
    assert!(thin.draw(Point::new(3, 4), 1u8, Some(2u8), &DATA).is_empty());
}

#[test]
fn validity_of_fonts() {
    let g = glyphs();
    assert!(font(&g, &DATA).is_valid());

    let mut out_of_range = font(&g, &DATA);
    out_of_range.replacement_character = 4;
    assert!(!out_of_range.is_valid());

    let unsorted = vec![glyph('B', 0, 0, 0, 0, 1, 0), glyph('A', 0, 0, 0, 0, 1, 0)];
    assert!(!font(&unsorted, &DATA).is_valid());

    let twice = vec![glyph('A', 0, 0, 0, 0, 1, 0), glyph('A', 0, 0, 0, 0, 1, 0)];
    assert!(!font(&twice, &DATA).is_valid());

    let too_long = vec![glyph('A', 0, 0, 4, 4, 1, 1)];
    assert!(!font(&too_long, &DATA).is_valid());
    let exact = vec![glyph('A', 0, 0, 4, 4, 1, 0)];
    assert!(font(&exact, &DATA).is_valid());

    let mut tall = font(&g, &DATA);
    tall.font_ascent = 0x8000_0000;
    assert!(!tall.is_valid());

    let empty: Vec<BdfGlyph> = Vec::new();
    assert!(!font(&empty, &DATA).is_valid());
}

#[test]
fn bits_within_the_blob() {
    let g = glyphs();
    assert!(g[1].has_bits_within(1));
    assert!(!g[1].has_bits_within(0));
    assert!(g[2].has_bits_within(2));
    assert!(!g[2].has_bits_within(1));
    assert!(g[0].has_bits_within(0));
}

#[test]
fn rectangles_move_within_the_coordinate_range() {
    let r = Rectangle::new(Point::new(1, -2), Size::new(3, 4));
    assert!(r.can_translate(Point::new(10, 20)));
    assert_eq!(
        r.translate(Point::new(10, 20)),
        Rectangle::new(Point::new(11, 18), Size::new(3, 4))
    );
    assert!(r.can_translate(Point::new(i32::MAX - 4, 0)));
    assert!(!r.can_translate(Point::new(i32::MAX - 3, 0)));
    assert!(!r.can_translate(Point::new(0, i32::MIN)));
    assert!(r.can_translate(Point::new(0, i32::MIN + 2)));
}

#[test]
fn pixels_come_in_the_order_of_the_points_of_the_rectangle() {
    let g = glyph('A', -1, -3, 3, 2, 4, 0);
    let position = Point::new(7, 9);
    let ops = g.draw(position, 1u8, Some(0u8), &DATA);
    let moved = g.bounding_box.translate(position);
    let area = embedded_graphics::primitives::Rectangle::new(
        embedded_graphics::geometry::Point::new(moved.top_left.x, moved.top_left.y),
        embedded_graphics::geometry::Size::new(moved.size.width, moved.size.height),
    );
    let points: Vec<Point> = embedded_graphics::primitives::PointsIter::points(&area)
        .map(|p| Point::new(p.x, p.y))
        .collect();
    let drawn: Vec<Point> = ops
        .iter()
        .map(|op| match op {
            DrawOp::Pixel(point, _) => *point,
            DrawOp::FillSolid(rectangle, _) => rectangle.top_left,
        })
        .collect();
    assert_eq!(points.len(), 6);
    assert_eq!(drawn, points);
}

#[test]
fn lookup_in_an_unsorted_table_gives_a_glyph_of_the_table() {
    let g = vec![
        glyph('C', 0, 0, 0, 0, 1, 0),
        glyph('A', 0, 0, 0, 0, 2, 0),
        glyph('B', 0, 0, 0, 0, 3, 0),
    ];
    let f = font(&g, &DATA);
    for c in ['A', 'B', 'C', 'D', ' '] {
        let found = f.get_glyph(c);
        assert!(g.iter().any(|entry| entry == found));
    }
}
