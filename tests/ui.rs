use embedded_graphics::pixelcolor::{Rgb565, WebColors};
use embedded_graphics::prelude::IntoStorage;
use keyvisor::display::{
    push_full, push_region, FrameBuffer, Point, Rect, Size, FRAME_SIZE, HEIGHT, ROW_BYTES, WIDTH,
};
use keyvisor::kbd::{ColumnState, Debouncer, Key, KeyEvent};
use keyvisor::ui::{
    button_pos, update, Button, ButtonStyle, Direction, Renderer, BUTTON_HEIGHT, BUTTON_WIDTH,
};

fn cell(x: i32, y: i32) -> Rect {
    Rect { top_left: Point { x, y }, size: Size { width: BUTTON_WIDTH, height: BUTTON_HEIGHT } }
}

fn in_cell(i: usize, r: &Rect) -> bool {
    let p = i / 2;
    let (px, py) = ((p % WIDTH as usize) as i32, (p / WIDTH as usize) as i32);
    px >= r.top_left.x
        && px < r.top_left.x + r.size.width as i32
        && py >= r.top_left.y
        && py < r.top_left.y + r.size.height as i32
}

#[test]
fn styles_use_named_web_colors() {
    let p = ButtonStyle::pressed();
    assert_eq!(p.bg_color, Rgb565::CSS_SALMON.into_storage());
    assert_eq!(p.border_color, Rgb565::CSS_DIM_GRAY.into_storage());
    assert_eq!(p.text_color, Rgb565::CSS_BLACK.into_storage());
    let u = ButtonStyle::unpressed();
    assert_eq!(u.bg_color, Rgb565::CSS_BLACK.into_storage());
    assert_eq!(u.border_color, Rgb565::CSS_WHITE.into_storage());
    assert_eq!(u.text_color, Rgb565::CSS_WHITE.into_storage());
}

#[test]
fn grid_cells_tile_the_panel() {
    assert_eq!(BUTTON_WIDTH * 3, WIDTH as u32);
    assert_eq!(BUTTON_HEIGHT * 4, HEIGHT as u32);
    assert_eq!(button_pos(0, 0), Point { x: 0, y: 0 });
    assert_eq!(button_pos(3, 2), Point { x: 160, y: 180 });
    assert_eq!(button_pos(1, 1), Point { x: 80, y: 60 });
}

#[test]
fn clear_paints_every_pixel() {
    let mut fb = FrameBuffer::new();
    fb.clear(0x1234);
    let b = fb.as_bytes();
    assert_eq!(b.len(), FRAME_SIZE);
    assert!(b.chunks(2).all(|c| c == [0x12, 0x34]));
}

#[test]
fn rounded_rect_stays_in_cell() {
    let mut fb = FrameBuffer::new();
    let c = cell(80, 60);
    fb.fill_rounded_rect(c, 10, -3, 1, 0xffff, 0xf800);
    let b = fb.as_bytes();
    let centre = ((90 * WIDTH as usize) + 120) * 2;
    assert_eq!(&b[centre..centre + 2], &[0xff, 0xff]);
    for (i, v) in b.iter().enumerate() {
        if !in_cell(i, &c) {
            assert_eq!(*v, 0);
        }
    }
    let corner = ((60 * WIDTH as usize) + 80) * 2;
    assert_eq!(&b[corner..corner + 2], &[0, 0]);
}

#[test]
fn label_draws_inside_cell() {
    let mut fb = FrameBuffer::new();
    let c = cell(0, 0);
    fb.draw_label(c, '8', 39, 29, 0xffff);
    let b = fb.as_bytes();
    assert!(b.iter().any(|v| *v != 0));
    for (i, v) in b.iter().enumerate() {
        if !in_cell(i, &c) {
            assert_eq!(*v, 0);
        }
    }
}

#[test]
fn drawing_twice_is_idempotent() {
    let mut fb = FrameBuffer::new();
    fb.clear(0x0f0f);
    let b = Button::new(Key { col: 1, row: 2 }, button_pos(2, 1), ButtonStyle::pressed());
    b.draw(&mut fb);
    let once = fb.as_bytes().to_vec();
    b.draw(&mut fb);
    assert_eq!(fb.as_bytes(), &once[..]);
}

#[test]
fn update_returns_key_cell() {
    let mut fb = FrameBuffer::new();
    let before = fb.as_bytes().to_vec();
    let r = update(Key { col: 2, row: 1 }, Direction::Down, &mut fb);
    assert_eq!(r, cell(160, 60));
    let after = fb.as_bytes();
    assert_ne!(after, &before[..]);
    for i in 0..FRAME_SIZE {
        if !in_cell(i, &r) {
            assert_eq!(after[i], before[i]);
        }
    }
    assert_eq!(Button::new(Key { col: 2, row: 1 }, button_pos(1, 2), ButtonStyle::pressed()).bounds(), r);
}

#[test]
fn pressed_and_released_differ() {
    let mut a = FrameBuffer::new();
    let mut b = FrameBuffer::new();
    update(Key { col: 0, row: 0 }, Direction::Down, &mut a);
    update(Key { col: 0, row: 0 }, Direction::Up, &mut b);
    assert_ne!(a.as_bytes(), b.as_bytes());
}

#[test]
fn push_requests() {
    let f = push_full();
    assert_eq!((f.x, f.y, f.width, f.height, f.start, f.end), (0, 0, 240, 240, 0, FRAME_SIZE));
    let s = push_region(60, 60);
    assert_eq!((s.x, s.y, s.width, s.height), (0, 60, 240, 60));
    assert_eq!((s.start, s.end), (60 * ROW_BYTES, 120 * ROW_BYTES));
}

#[test]
fn startup_pushes_whole_frame_once() {
    let (r, push) = Renderer::start();
    assert_eq!(push, push_full());
    let b = r.frame().as_bytes();
    assert_eq!(b.len(), FRAME_SIZE);
    let mut expected = FrameBuffer::new();
    for row in 0..4 {
        for col in 0..3 {
            let k = Key { col: col as u8, row: row as u8 };
            Button::new(k, button_pos(row, col), ButtonStyle::unpressed()).draw(&mut expected);
        }
    }
    assert_eq!(b, expected.as_bytes());
    assert!(b.iter().any(|v| *v == 0xff));
}

#[test]
fn event_push_covers_key_stripe() {
    let (mut r, _) = Renderer::start();
    let before = r.frame().as_bytes().to_vec();
    let p = r.handle_event(KeyEvent::KeyDown(Key { col: 1, row: 3 }));
    assert_eq!((p.x, p.y, p.width, p.height), (0, 180, 240, 60));
    assert_eq!((p.start, p.end), (180 * ROW_BYTES, 240 * ROW_BYTES));
    let after = r.frame().as_bytes();
    assert_ne!(after, &before[..]);
    for i in 0..FRAME_SIZE {
        if i < p.start || i >= p.end {
            assert_eq!(after[i], before[i]);
        }
    }
}

#[test]
fn scenario_press_then_release_key_zero_zero() {
    let mut d = Debouncer::new();
    let (mut r, startup) = Renderer::start();
    assert_eq!(startup, push_full());
    let unpressed = r.frame().as_bytes().to_vec();

    let mut events = Vec::new();
    for _ in 0..12 {
        events.extend(d.process_column(0, ColumnState::from_bits(0b0001)));
    }
    assert_eq!(events, vec![KeyEvent::KeyDown(Key { col: 0, row: 0 })]);
    let p = r.handle_event(events[0]);
    assert_eq!((p.y, p.height), (0, 60));
    assert_eq!((p.start, p.end), (0, 60 * ROW_BYTES));
    let mut expected = FrameBuffer::new();
    expected.clear(0);
    update(Key { col: 0, row: 0 }, Direction::Down, &mut expected);
    let c = cell(0, 0);
    for i in p.start..p.end {
        if in_cell(i, &c) {
            assert_eq!(r.frame().as_bytes()[i], expected.as_bytes()[i]);
        }
    }

    let mut events = Vec::new();
    for _ in 0..12 {
        events.extend(d.process_column(0, ColumnState::from_bits(0)));
    }
    assert_eq!(events, vec![KeyEvent::KeyUp(Key { col: 0, row: 0 })]);
    let p = r.handle_event(events[0]);
    assert_eq!((p.y, p.height), (0, 60));
    assert_eq!(r.frame().as_bytes(), &unpressed[..]);
}

#[test]
fn redraw_in_second_style_replaces_first() {
    let mut a = FrameBuffer::new();
    a.clear(0x0841);
    let mut b = FrameBuffer::new();
    b.clear(0x0841);
    let k = Key { col: 2, row: 2 };
    let first = Button::new(k, button_pos(2, 2), ButtonStyle::pressed());
    let second = Button::new(k, button_pos(2, 2), ButtonStyle::unpressed());
    first.draw(&mut a);
    second.draw(&mut a);
    second.draw(&mut b);
    assert_eq!(a.as_bytes(), b.as_bytes());
}

#[test]
fn press_then_release_restores_cell() {
    let (mut r, _) = Renderer::start();
    let before = r.frame().as_bytes().to_vec();
    let k = Key { col: 1, row: 0 };
    r.handle_event(KeyEvent::KeyDown(k));
    assert_ne!(r.frame().as_bytes(), &before[..]);
    r.handle_event(KeyEvent::KeyUp(k));
    assert_eq!(r.frame().as_bytes(), &before[..]);
}
