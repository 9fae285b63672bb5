use lib::error::Error;
use lib::graphics::color::{ColorCode, PixelFormat, RgbColorCode};
use lib::graphics::console::{
    AnsiEvent, ConsoleAction, CsiSequence, FrameBufferConsole, Geometry, StreamOutput,
};
use lib::graphics::draw::clip_line;
use lib::graphics::font::PsfFont;
use lib::graphics::geometry::{Point, Rect, Size};
use lib::graphics::multi_layer::{Layer, LayerError, LayerId, LayerManager};
use lib::graphics::terminal::{FrameBufferError, Terminal, TerminalAction, TerminalError};
use lib::graphics::window_manager::{
    pointer_position, MouseEvent, WindowAction, WindowManager, WindowManagerError,
};

const BLACK: ColorCode = ColorCode { r: 0, g: 0, b: 0, a: 0 };
const WHITE: ColorCode = ColorCode { r: 255, g: 255, b: 255, a: 0 };
const RED: ColorCode = ColorCode { r: 255, g: 0, b: 0, a: 0 };

#[test]
fn pixel_formats() {
    let c = ColorCode::new_rgba(0x11, 0x22, 0x33, 0x44);
    assert_eq!(c.to_color_code(PixelFormat::Bgr), 0x112233);
    assert_eq!(c.to_color_code(PixelFormat::Rgb), 0x332211);
    assert_eq!(c.to_color_code(PixelFormat::Bgra), 0x44112233);
    let data = [0x33u8, 0x22, 0x11, 0x44];
    assert_eq!(ColorCode::from_pixel_data(&data, PixelFormat::Bgra), c);
    assert_eq!(ColorCode::from_pixel_data(&data, PixelFormat::Bgr), ColorCode::new_rgb(0x11, 0x22, 0x33));
    assert_eq!(ColorCode::from_pixel_data(&data, PixelFormat::Rgb), ColorCode::new_rgb(0x33, 0x22, 0x11));
    assert_eq!(ColorCode::default(), BLACK);
    assert_eq!(RgbColorCode::new(1, 2, 3), RgbColorCode { r: 1, g: 2, b: 3 });
}

#[test]
fn rectangles() {
    let r = Rect::new(10, 20, 5, 5);
    assert!(r.contains(Point::new(10, 20)));
    assert!(r.contains(Point::new(14, 24)));
    assert!(!r.contains(Point::new(15, 24)));
    assert!(!r.contains(Point::new(9, 20)));
    assert_eq!(Rect::from_point_and_size(Point::new(10, 20), Size::new(5, 5)), r);
}

#[test]
fn clipping_lines() {
    // inside: kept as it is
    assert_eq!(clip_line(1, 2, 30, 40, 99, 99), Some((1, 2, 30, 40)));
    // crossing the left edge
    assert_eq!(clip_line(-10, 5, 10, 5, 99, 99), Some((0, 5, 10, 5)));
    // crossing the bottom right corner
    assert_eq!(clip_line(50, 50, 150, 150, 99, 99), Some((50, 50, 99, 99)));
    // both ends beyond the same side
    assert_eq!(clip_line(-5, 0, -1, 50, 99, 99), None);
    assert_eq!(clip_line(0, 120, 50, 130, 99, 99), None);
}

/// A PSF2 font of 3 glyphs of 8x16 pixels; glyph i is filled with i + 1;
/// with `unicode`, glyph 0 is 'A', glyph 1 is 'B' and 'b', glyph 2 is '?'.
fn font_bytes(unicode: bool) -> Vec<u8> {
    let mut b = Vec::new();
    let fields: [u32; 8] = [0x864ab572, 0, 32, if unicode { 1 } else { 0 }, 3, 16, 16, 8];
    for f in fields {
        b.extend_from_slice(&f.to_le_bytes());
    }
    for g in 0..3u8 {
        b.extend_from_slice(&[g + 1; 16]);
    }
    if unicode {
        b.extend_from_slice(&[b'A', 0xff, b'B', b'b', 0xff, b'?', 0xff]);
    }
    b
}

#[test]
fn font_header_and_glyphs() {
    let bytes = font_bytes(true);
    assert!(PsfFont::header_ok(&bytes));
    assert!(!PsfFont::header_ok(&bytes[..31]));
    let mut bad = bytes.clone();
    bad[0] = 0;
    assert!(!PsfFont::header_ok(&bad));
    let mut font = PsfFont::new(bytes);
    assert_eq!(font.wh(), (8, 16));
    assert_eq!(font.unicode_char_to_glyph_index('A'), 0);
    assert_eq!(font.unicode_char_to_glyph_index('b'), 1);
    assert_eq!(font.unicode_char_to_glyph_index('?'), 2);
    assert_eq!(font.glyph('B').unwrap(), &[2u8; 16][..]);
    font.init_cache();
    assert_eq!(font.unicode_char_to_glyph_index('b'), 1);
    assert_eq!(font.glyph('?').unwrap(), &[3u8; 16][..]);
}

#[test]
fn font_without_unicode_table_uses_code_points() {
    let font = PsfFont::new(font_bytes(false));
    assert_eq!(font.unicode_char_to_glyph_index('\u{1}'), 1);
    assert_eq!(font.glyph('\u{2}').unwrap(), &[3u8; 16][..]);
    assert!(matches!(
        font.glyph('A'),
        Err(Error::IndexOutOfBounds { index: 65, len: Some(3) })
    ));
}

#[test]
fn layers_are_composed_in_order() {
    let mut next: usize = 1;
    let a = LayerId::new(&mut next);
    let b = LayerId::new(&mut next);
    let c = LayerId::new(&mut next);
    let mut lm = LayerManager::new();
    lm.push_layer(Layer::new(a, Point::new(0, 0), Size::new(10, 10), PixelFormat::Bgr));
    let mut top = Layer::new(b, Point::new(5, 5), Size::new(10, 10), PixelFormat::Bgr);
    top.always_on_top = true;
    lm.push_layer(top);
    lm.push_layer(Layer::new(c, Point::new(20, 0), Size::new(4, 4), PixelFormat::Bgr));
    assert_eq!(lm.layers[0].buf.len(), 100);
    // nothing is dirty yet, but the layers always on top go last
    assert!(lm.draw_to_frame_buf().is_none());
    let order: Vec<LayerId> = lm.layers.iter().map(|l| l.id).collect();
    assert_eq!(order, vec![a, c, b]);
    // bringing a to the front keeps it below the layer always on top
    assert!(lm.bring_layer_to_front(a).is_ok());
    let order: Vec<LayerId> = lm.layers.iter().map(|l| l.id).collect();
    assert_eq!(order, vec![c, a, b]);
    let redraw = lm.draw_to_frame_buf().unwrap();
    assert_eq!(redraw.rect, Rect::new(0, 0, 24, 15));
    assert_eq!(redraw.layer_ids, vec![c, a, b]);
    assert!(lm.layers.iter().all(|l| !l.dirty));
    assert!(lm.draw_to_frame_buf().is_none());
}

#[test]
fn moved_layer_redraws_old_and_new_place() {
    let mut lm = LayerManager::new();
    let mut l = Layer::new(LayerId::new_val(7), Point::new(0, 0), Size::new(4, 4), PixelFormat::Rgb);
    l.move_to(Point::new(10, 10));
    assert_eq!(l.old_pos, Some(Point::new(0, 0)));
    l.move_to(Point::new(12, 12));
    assert_eq!(l.old_pos, Some(Point::new(0, 0)));
    assert_eq!(l.layer_info().pos, Point::new(12, 12));
    lm.push_layer(l);
    let redraw = lm.draw_to_frame_buf().unwrap();
    assert_eq!(redraw.rect, Rect::new(0, 0, 16, 16));
    assert!(lm.layers[0].old_pos.is_none());
}

#[test]
fn unknown_layers_are_refused() {
    let mut lm = LayerManager::new();
    assert!(matches!(
        lm.remove_layer(LayerId::new_val(3)),
        Err(Error::Layer(LayerError::InvalidLayerIdError(3)))
    ));
    assert!(matches!(
        lm.bring_layer_to_front(LayerId::new_val(4)),
        Err(Error::Layer(LayerError::InvalidLayerIdError(4)))
    ));
    lm.push_layer(Layer::new(LayerId::new_val(3), Point::new(0, 0), Size::new(1, 1), PixelFormat::Rgb));
    assert!(lm.remove_layer(LayerId::new_val(3)).is_ok());
    assert!(lm.layers.is_empty());
}

fn terminal() -> Terminal {
    let mut t = Terminal::new(BLACK, WHITE);
    let actions = t.init(true, 8, 80, 64, &[RED]).unwrap();
    assert_eq!(
        actions,
        vec![
            TerminalAction::Clear(BLACK),
            TerminalAction::DrawRect { x: 0, y: 0, w: 20, h: 20, color: RED }
        ]
    );
    t
}

#[test]
fn terminal_draws_and_echoes() {
    let mut t = terminal();
    assert_eq!((t.char_max_x_len, t.char_max_y_len), (9, 3));
    assert_eq!((t.cursor_x, t.cursor_y), (0, 2));
    let a = t.write_char('A').unwrap();
    assert_eq!(
        a,
        vec![
            TerminalAction::DrawFont { x: 0, y: 32, c: 'A', color: WHITE },
            TerminalAction::SendSerial(b'A')
        ]
    );
    assert_eq!((t.cursor_x, t.cursor_y), (1, 2));
    assert_eq!(t.write_char('\n').unwrap(), vec![TerminalAction::SendSerial(10)]);
    assert_eq!((t.cursor_x, t.cursor_y), (0, 3));
    let scroll = t.write_char('\n').unwrap();
    assert_eq!(
        scroll,
        vec![
            TerminalAction::Scroll { line_height: 16, width: 80, height: 64, back_color: BLACK },
            TerminalAction::SendSerial(10)
        ]
    );
    assert_eq!((t.cursor_x, t.cursor_y), (0, 3));
}

#[test]
fn terminal_string_and_colors() {
    let mut t = terminal();
    t.set_fore_color(RED);
    let a = t.write_string("hi").unwrap();
    assert_eq!(a.len(), 4);
    assert_eq!(a[2], TerminalAction::DrawFont { x: 8, y: 32, c: 'i', color: RED });
    t.reset_fore_color();
    assert_eq!(t.fore_color, WHITE);
}

#[test]
fn terminal_before_init_is_refused() {
    let mut t = Terminal::new(BLACK, WHITE);
    assert_eq!(t.write_char('x'), Err(TerminalError::NotInitialized));
    assert_eq!(
        t.init(false, 8, 80, 64, &[]),
        Err(TerminalError::FrameBufferError(FrameBufferError::NotInitialized))
    );
}

fn console() -> (FrameBufferConsole, Geometry) {
    let g = Geometry { screen_w: 80, screen_h: 64, font_w: 8, font_h: 16 };
    let mut c = FrameBufferConsole::new();
    assert_eq!(c.init(g, BLACK, WHITE, &[]), vec![ConsoleAction::Fill(BLACK)]);
    (c, g)
}

#[test]
fn console_prints_at_the_cursor() {
    let (mut c, g) = console();
    let a = c.write_char(g, 'x', StreamOutput::Nothing);
    assert_eq!(
        a,
        vec![ConsoleAction::DrawFont { x: 0, y: 32, c: 'x', fore: WHITE, back: BLACK }]
    );
    assert_eq!((c.state.cursor_x, c.state.cursor_y), (1, 2));
    let back = c.write_char(g, '\x08', StreamOutput::Nothing);
    assert_eq!(
        back,
        vec![ConsoleAction::DrawRect { x: 0, y: 32, w: 8, h: 16, color: BLACK }]
    );
    assert_eq!(c.write_char(g, '\t', StreamOutput::Nothing), vec![ConsoleAction::WriteTab]);
}

#[test]
fn console_control_sequences() {
    let (mut c, g) = console();
    let red = StreamOutput::Event(AnsiEvent::CsiSequence(CsiSequence::ForeColorRed));
    assert!(c.write_char(g, 'm', red).is_empty());
    assert_eq!(c.state.fore_color, RED);
    let pos = StreamOutput::Event(AnsiEvent::CsiSequence(CsiSequence::CursorPosition { row: 2, col: 5 }));
    c.write_char(g, 'H', pos);
    assert_eq!((c.state.cursor_x, c.state.cursor_y), (4, 1));
    let reset = StreamOutput::Event(AnsiEvent::CsiSequence(CsiSequence::CharReset));
    c.write_char(g, 'm', reset);
    assert_eq!(c.state.fore_color, WHITE);
    let clear = StreamOutput::Event(AnsiEvent::CsiSequence(CsiSequence::ClearScreenAll));
    assert_eq!(c.write_char(g, 'J', clear), vec![ConsoleAction::Fill(BLACK)]);
    // a broken sequence restarts the reader and the character is printed
    let a = c.write_char(g, 'z', StreamOutput::Invalid);
    assert_eq!(a[0], ConsoleAction::ResetReader);
    assert_eq!(a.len(), 2);
}

#[test]
fn console_scrolls_at_the_bottom() {
    let (mut c, g) = console();
    c.write_char(g, '\n', StreamOutput::Nothing);
    assert_eq!(c.state.cursor_y, 3);
    let a = c.write_char(g, '\n', StreamOutput::Nothing);
    assert_eq!(
        a,
        vec![
            ConsoleAction::CopyRect { src_x: 0, src_y: 16, dst_x: 0, dst_y: 0, w: 80, h: 48 },
            ConsoleAction::DrawRect { x: 0, y: 48, w: 80, h: 16, color: BLACK }
        ]
    );
    assert_eq!((c.state.cursor_x, c.state.cursor_y), (0, 3));
}

fn window_manager() -> WindowManager {
    let mut wm = WindowManager::new();
    wm.init(Size::new(800, 600), String::from("/mnt/initramfs/mouse.bmp"));
    wm
}

#[test]
fn windows_need_an_initialized_manager() {
    let mut wm = WindowManager::new();
    assert!(matches!(
        wm.create_window(LayerId::new_val(1), Point::new(0, 0), Size::new(100, 100)),
        Err(Error::NotInitialized)
    ));
    assert!(matches!(wm.create_taskbar(), Err(Error::NotInitialized)));
    assert!(matches!(wm.remove_component(LayerId::new_val(1)), Err(Error::NotInitialized)));
    assert!(matches!(
        wm.mouse_pointer_event(MouseEvent::UsbHidMouse { abs_x: 0, abs_y: 0, left: false }),
        Err(Error::NotInitialized)
    ));
}

#[test]
fn taskbar_and_windows() {
    let mut wm = window_manager();
    assert!(wm.create_taskbar().is_ok());
    assert_eq!(wm.taskbar, Some(Rect::new(0, 570, 800, 30)));
    let id = wm.create_window(LayerId::new_val(5), Point::new(100, 100), Size::new(200, 150)).unwrap();
    assert_eq!(id, LayerId::new_val(5));
    assert_eq!(wm.windows[0].close_button_offset, Point::new(178, 6));
    assert_eq!(wm.windows[0].close_button_size, Size::new(16, 14));
    assert!(matches!(
        wm.remove_component(LayerId::new_val(9)),
        Err(Error::WindowManager(WindowManagerError::WindowWasNotFound { layer_id: 9 }))
    ));
    assert!(wm.remove_component(id).is_ok());
    assert!(wm.windows.is_empty());
}

#[test]
fn mouse_drags_and_closes_windows() {
    let mut wm = window_manager();
    let id = wm.create_window(LayerId::new_val(5), Point::new(100, 100), Size::new(200, 150)).unwrap();
    assert!(matches!(
        wm.mouse_pointer_event(MouseEvent::UsbHidMouse { abs_x: 0, abs_y: 0, left: false }),
        Err(Error::WindowManager(WindowManagerError::MousePointerLayerWasNotFound))
    ));
    wm.mouse_pointer = Some(Rect::new(0, 0, 10, 10));

    let hover = wm.mouse_pointer_event(MouseEvent::UsbHidMouse { abs_x: 150, abs_y: 120, left: false }).unwrap();
    assert_eq!(hover, vec![WindowAction::MovePointer(Point::new(150, 120))]);

    let press = wm.mouse_pointer_event(MouseEvent::UsbHidMouse { abs_x: 150, abs_y: 120, left: true }).unwrap();
    assert_eq!(
        press,
        vec![
            WindowAction::MovePointer(Point::new(150, 120)),
            WindowAction::BringToFront(id),
            WindowAction::MoveWindow(id, Point::new(100, 100))
        ]
    );
    assert_eq!(wm.dragging_window_id, Some(id));

    let drag = wm.mouse_pointer_event(MouseEvent::UsbHidMouse { abs_x: 200, abs_y: 150, left: true }).unwrap();
    assert_eq!(
        drag,
        vec![WindowAction::MovePointer(Point::new(200, 150)), WindowAction::MoveWindow(id, Point::new(150, 130))]
    );
    assert_eq!(wm.windows[0].rect.origin, Point::new(150, 130));

    let release = wm.mouse_pointer_event(MouseEvent::UsbHidMouse { abs_x: 200, abs_y: 150, left: false }).unwrap();
    assert_eq!(release, vec![WindowAction::MovePointer(Point::new(200, 150))]);
    assert!(wm.dragging_window_id.is_none());

    // the close button is 178 to the right and 6 down from the window's corner
    let close = wm.mouse_pointer_event(MouseEvent::UsbHidMouse { abs_x: 330, abs_y: 140, left: true }).unwrap();
    assert_eq!(
        close,
        vec![
            WindowAction::MovePointer(Point::new(330, 140)),
            WindowAction::BringToFront(id),
            WindowAction::CloseWindow(id)
        ]
    );
    assert!(wm.windows.is_empty());
}

#[test]
fn pointer_stays_on_the_screen() {
    let p = Rect::new(0, 0, 10, 10);
    let res = Size::new(800, 600);
    let m = pointer_position(p, res, MouseEvent::Ps2Mouse { rel_x: 500, rel_y: -5, left: false });
    assert_eq!(m, Point::new(100, 0));
    let m = pointer_position(p, res, MouseEvent::UsbHidMouse { abs_x: 5000, abs_y: 599, left: false });
    assert_eq!(m, Point::new(790, 590));
}
