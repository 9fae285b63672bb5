use lib::error::Error;
use lib::graphics::color::{ColorCode, PixelFormat};
use lib::graphics::draw::canvas::DrawError;
use lib::graphics::draw::clip_line;
use lib::graphics::font::PsfFont;
use lib::graphics::frame_buf::FrameBuffer;
use lib::graphics::geometry::{Point, Rect, Size};
use lib::graphics::multi_layer::{Layer, LayerId};

const RED: ColorCode = ColorCode { r: 255, g: 0, b: 0, a: 0 };
const GREEN: ColorCode = ColorCode { r: 0, g: 255, b: 0, a: 0 };
const BLUE: ColorCode = ColorCode { r: 0, g: 0, b: 255, a: 0 };
const WHITE: ColorCode = ColorCode { r: 255, g: 255, b: 255, a: 0 };
const BLACK: ColorCode = ColorCode { r: 0, g: 0, b: 0, a: 0 };

fn layer(w: usize, h: usize) -> Layer {
    Layer::new(LayerId::new_val(1), Point::new(0, 0), Size::new(w, h), PixelFormat::Bgr)
}

fn counting(w: usize, h: usize) -> Layer {
    let mut l = layer(w, h);
    for (i, p) in l.buf.iter_mut().enumerate() {
        *p = i as u32;
    }
    l
}

/// A PSF2 font of 3 glyphs of 8x16 pixels, glyph i filled with i + 1; 'A',
/// 'B' and '?' name the glyphs.
fn font() -> PsfFont {
    let mut b = Vec::new();
    let fields: [u32; 8] = [0x864ab572, 0, 32, 1, 3, 16, 16, 8];
    for f in fields {
        b.extend_from_slice(&f.to_le_bytes());
    }
    for g in 0..3u8 {
        b.extend_from_slice(&[g + 1; 16]);
    }
    b.extend_from_slice(&[b'A', 0xff, b'B', 0xff, b'?', 0xff]);
    PsfFont::new(b)
}

#[test]
fn pixels_are_set_by_row_and_column() {
    let mut l = layer(4, 3);
    assert!(l.draw_pixel(Point::new(1, 1), RED).is_ok());
    assert_eq!(l.buf[5], 0xff0000);
    assert!(l.dirty);
    // a point on the right edge lands at the start of the next row
    assert!(l.draw_pixel(Point::new(4, 0), GREEN).is_ok());
    assert_eq!(l.buf[4], 0x00ff00);
    assert!(matches!(
        l.draw_pixel(Point::new(5, 0), RED),
        Err(Error::Draw(DrawError::SourcePositionOutOfBounds { point })) if point == Point::new(5, 0)
    ));
}

#[test]
fn rectangles_fill_their_cells() {
    let mut l = layer(4, 3);
    assert!(l.draw_rect(Rect::new(1, 0, 2, 2), GREEN).is_ok());
    let g = 0x00ff00;
    assert_eq!(l.buf, vec![0, g, g, 0, 0, g, g, 0, 0, 0, 0, 0]);
    // a rectangle of no height still fills its first row
    assert!(l.draw_rect(Rect::new(0, 2, 2, 0), BLUE).is_ok());
    assert_eq!(&l.buf[8..], &[0xff, 0xff, 0, 0]);
    assert!(matches!(
        l.draw_rect(Rect::new(3, 0, 2, 1), RED),
        Err(Error::Draw(DrawError::RectSizeOutOfBounds { .. }))
    ));
    assert!(matches!(
        l.draw_rect(Rect::new(5, 0, 1, 1), RED),
        Err(Error::Draw(DrawError::SourcePositionOutOfBounds { .. }))
    ));
}

#[test]
fn fill_covers_the_layer() {
    let mut l = layer(3, 2);
    assert!(l.fill(BLUE).is_ok());
    assert_eq!(l.buf, vec![0xff; 6]);
}

#[test]
fn copying_up_moves_rows() {
    let mut l = counting(3, 3);
    assert!(l.copy_rect(Point::new(0, 1), Point::new(0, 0), Size::new(3, 2)).is_ok());
    assert_eq!(l.buf, vec![3, 4, 5, 6, 7, 8, 6, 7, 8]);
}

#[test]
fn copying_down_copies_row_after_row() {
    let mut l = counting(3, 3);
    assert!(l.copy_rect(Point::new(0, 0), Point::new(0, 1), Size::new(3, 2)).is_ok());
    // the second row is copied after the first has overwritten it
    assert_eq!(l.buf, vec![0, 1, 2, 0, 1, 2, 0, 1, 2]);
    let mut m = counting(4, 2);
    // within a row the move is as one block
    assert!(m.copy_rect(Point::new(0, 0), Point::new(1, 0), Size::new(3, 1)).is_ok());
    assert_eq!(&m.buf[..4], &[0, 0, 1, 2]);
}

#[test]
fn copy_rect_errors() {
    let mut l = counting(3, 3);
    assert!(matches!(
        l.copy_rect(Point::new(4, 0), Point::new(0, 0), Size::new(1, 1)),
        Err(Error::Draw(DrawError::SourcePositionOutOfBounds { .. }))
    ));
    assert!(matches!(
        l.copy_rect(Point::new(0, 0), Point::new(0, 4), Size::new(1, 1)),
        Err(Error::Draw(DrawError::DestinationPositionOutOfBounds { .. }))
    ));
    assert!(matches!(
        l.copy_rect(Point::new(2, 0), Point::new(0, 0), Size::new(2, 1)),
        Err(Error::Draw(DrawError::RectSizeOutOfBounds { .. }))
    ));
    assert_eq!(l.buf, (0..9).collect::<Vec<u32>>());
}

#[test]
fn copying_from_another_layer_is_clipped() {
    let src = counting(2, 2);
    let mut dst = layer(3, 3);
    assert!(dst.copy_rect_from(&src, Rect::new(0, 0, 2, 2), Point::new(0, 1)).is_ok());
    assert_eq!(dst.buf, vec![0, 0, 0, 0, 1, 0, 2, 3, 0]);
    let mut corner = layer(3, 3);
    assert!(corner.copy_rect_from(&src, Rect::new(1, 1, 5, 5), Point::new(2, 2)).is_ok());
    assert_eq!(corner.buf[8], 3);
    assert_eq!(corner.buf.iter().filter(|v| **v != 0).count(), 1);
    let mut off = layer(3, 3);
    assert!(off.copy_rect_from(&src, Rect::new(0, 0, 2, 2), Point::new(3, 3)).is_ok());
    assert!(!off.dirty);
    let other = Layer::new(LayerId::new_val(2), Point::new(0, 0), Size::new(2, 2), PixelFormat::Bgra);
    assert!(matches!(
        dst.copy_rect_from(&other, Rect::new(0, 0, 1, 1), Point::new(0, 0)),
        Err(Error::Draw(DrawError::InvalidPixelFormat { src: PixelFormat::Bgra, dst: PixelFormat::Bgr }))
    ));
}

#[test]
fn glyphs_are_drawn_bit_by_bit() {
    let f = font();
    let mut l = layer(8, 16);
    // every row of the glyph of 'B' is 0b0000_0010: only column 6 is set
    assert!(l.draw_char(Point::new(0, 0), 'B', &f, WHITE, BLACK).is_ok());
    for row in 0..16 {
        for col in 0..8 {
            let expected = if col == 6 { 0xffffff } else { 0 };
            assert_eq!(l.buf[row * 8 + col], expected);
        }
    }
    // 'A' is 0b0000_0001: column 7
    let mut m = layer(8, 16);
    assert!(m.draw_char(Point::new(0, 0), 'A', &f, RED, BLUE).is_ok());
    assert_eq!(m.buf[7], 0xff0000);
    assert_eq!(m.buf[6], 0xff);
}

#[test]
fn glyphs_are_clipped_to_the_layer() {
    let f = font();
    let mut l = counting(4, 4);
    assert!(l.draw_char(Point::new(2, 2), '?', &f, WHITE, BLACK).is_ok());
    // '?' is 0b0000_0011: columns 6 and 7 only, so the two columns drawn are back color
    assert_eq!(l.buf[10], 0);
    assert_eq!(l.buf[11], 0);
    assert_eq!(l.buf[14], 0);
    assert_eq!(l.buf[15], 0);
    assert_eq!(l.buf[9], 9);
    let mut m = counting(4, 4);
    assert!(m.draw_char(Point::new(4, 0), 'A', &f, WHITE, BLACK).is_ok());
    assert_eq!(m.buf, (0..16).collect::<Vec<u32>>());
    assert!(!m.dirty);
}

fn bmp_2x2() -> Vec<u8> {
    let mut b = Vec::new();
    b.extend_from_slice(b"BM");
    b.extend_from_slice(&(54u32 + 16).to_le_bytes());
    b.extend_from_slice(&[0, 0, 0, 0]);
    b.extend_from_slice(&54u32.to_le_bytes());
    b.extend_from_slice(&40u32.to_le_bytes());
    b.extend_from_slice(&2i32.to_le_bytes());
    b.extend_from_slice(&2i32.to_le_bytes());
    b.extend_from_slice(&1u16.to_le_bytes());
    b.extend_from_slice(&24u16.to_le_bytes());
    b.extend_from_slice(&[0; 24]);
    // the bottom row first: blue, white
    b.extend_from_slice(&[255, 0, 0, 255, 255, 255, 0, 0]);
    // then the top row: red, green
    b.extend_from_slice(&[0, 0, 255, 0, 255, 0, 0, 0]);
    b
}

#[test]
fn bitmap_images_become_layers() {
    let data = bmp_2x2();
    assert_eq!(data.len(), 70);
    let image = lib::fs::file::bitmap::BitmapImage::new(&data);
    let l = lib::graphics::multi_layer::create_layer_from_bitmap_image(LayerId::new_val(9), Point::new(3, 4), &image).unwrap();
    assert_eq!(l.size, Size::new(2, 2));
    assert_eq!(l.pos, Point::new(3, 4));
    assert_eq!(l.buf, vec![0xff0000, 0x00ff00, 0x0000ff, 0xffffff]);
    assert!(l.dirty);
}

#[test]
fn frame_buffer_composes_layers_into_its_shadow() {
    let mut fb = FrameBuffer::new();
    assert!(matches!(fb.draw_resolution(), Err(Error::NotInitialized)));
    fb.init(Size::new(4, 3), 5, PixelFormat::Bgr);
    assert_eq!(fb.draw_resolution().unwrap(), Size::new(5, 3));
    let screen: Vec<u32> = vec![0; 15];
    assert!(fb.enable_shadow_buf(&screen).is_ok());
    let mut l = layer(2, 2);
    l.pos = Point::new(1, 1);
    l.buf = vec![1, 2, 3, 4];
    assert!(fb.apply_layer_buf(&l, None).is_ok());
    let shadow = fb.shadow.as_ref().unwrap();
    assert_eq!(shadow.buf[6], 1);
    assert_eq!(shadow.buf[7], 2);
    assert_eq!(shadow.buf[11], 3);
    assert_eq!(shadow.buf[12], 4);
    assert_eq!(shadow.buf.iter().filter(|v| **v != 0).count(), 4);
    assert_eq!(fb.updated_rect, Some(Rect::new(1, 1, 2, 2)));
    assert!(fb.dirty);
    let spans = fb.apply_shadow_buf().unwrap();
    assert_eq!(spans, vec![(6, 2), (11, 2)]);
    assert!(!fb.dirty);
    assert!(fb.updated_rect.is_none());
    assert!(fb.apply_shadow_buf().unwrap().is_empty());
}

#[test]
fn frame_buffer_keeps_to_the_area_given() {
    let mut fb = FrameBuffer::new();
    fb.init(Size::new(5, 3), 5, PixelFormat::Bgr);
    assert!(fb.enable_shadow_buf(&vec![0; 15]).is_ok());
    let mut l = layer(2, 2);
    l.pos = Point::new(1, 1);
    l.buf = vec![1, 2, 3, 4];
    assert!(fb.apply_layer_buf(&l, Some(Rect::new(2, 0, 5, 5))).is_ok());
    let shadow = fb.shadow.as_ref().unwrap();
    assert_eq!(shadow.buf[7], 2);
    assert_eq!(shadow.buf[12], 4);
    assert_eq!(shadow.buf.iter().filter(|v| **v != 0).count(), 2);
    assert_eq!(fb.updated_rect, Some(Rect::new(2, 1, 1, 2)));
    // a layer outside the area changes nothing
    let mut far = layer(1, 1);
    far.pos = Point::new(0, 0);
    assert!(fb.apply_layer_buf(&far, Some(Rect::new(3, 2, 1, 1))).is_ok());
    assert_eq!(fb.updated_rect, Some(Rect::new(2, 1, 1, 2)));
    let other = Layer::new(LayerId::new_val(3), Point::new(0, 0), Size::new(1, 1), PixelFormat::Rgb);
    assert!(matches!(
        fb.apply_layer_buf(&other, None),
        Err(Error::Draw(DrawError::InvalidPixelFormat { .. }))
    ));
}

#[test]
fn lines_follow_bresenham_steps() {
    let mut l = layer(4, 3);
    assert!(l.draw_line(Point::new(0, 1), Point::new(3, 1), RED).is_ok());
    assert_eq!(l.buf, vec![0, 0, 0, 0, 0xff0000, 0xff0000, 0xff0000, 0xff0000, 0, 0, 0, 0]);
    assert!(l.dirty);

    let mut d = layer(3, 3);
    assert!(d.draw_line(Point::new(2, 2), Point::new(0, 0), BLUE).is_ok());
    assert_eq!(d.buf, vec![0xff, 0, 0, 0, 0xff, 0, 0, 0, 0xff]);

    // a shallow line takes a step down half way
    let mut s = layer(4, 2);
    assert!(s.draw_line(Point::new(0, 0), Point::new(3, 1), GREEN).is_ok());
    assert_eq!(s.buf, vec![0x00ff00, 0x00ff00, 0, 0, 0, 0, 0x00ff00, 0x00ff00]);
}

#[test]
fn lines_are_clipped_to_the_layer() {
    let mut l = layer(4, 3);
    assert!(l.draw_line(Point::new(1, 2), Point::new(9, 2), WHITE).is_ok());
    assert_eq!(&l.buf[8..], &[0, 0xffffff, 0xffffff, 0xffffff]);
    assert!(l.buf[..8].iter().all(|p| *p == 0));

    // a line wholly to the right of the layer draws nothing
    let mut m = layer(4, 3);
    assert!(m.draw_line(Point::new(5, 0), Point::new(9, 2), WHITE).is_ok());
    assert!(m.buf.iter().all(|p| *p == 0));
    assert!(!m.dirty);
}

#[test]
fn clipping_moves_each_end_onto_the_box() {
    assert_eq!(clip_line(-2, 0, 12, 14, 9, 9), Some((0, 2, 7, 9)));
    assert_eq!(clip_line(1, 1, 5, 5, 9, 9), Some((1, 1, 5, 5)));
    assert_eq!(clip_line(-5, -5, -1, 3, 9, 9), None);
}
