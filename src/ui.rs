//! The on-screen keypad: one button per key, drawn unpressed at startup and
//! redrawn in the pressed or unpressed style as keys change level.
use vstd::prelude::*;

use crate::display::{
    byte_in_rect, color_byte, full_push, label_area, on_panel, paint, paint_shape, push_full,
    push_region, rounded_rect_area, stripe_push, FrameBuffer, Point, Rect, RegionPush, Size,
    FRAME_SIZE, ROW_BYTES,
};
use crate::kbd::{label_of, Key, KeyEvent, N_COLS, N_ROWS};

verus! {

/// Width of one button cell: the panel width over the number of columns.
pub const BUTTON_WIDTH: u32 = 80;

/// Height of one button cell: the panel height over the number of rows.
pub const BUTTON_HEIGHT: u32 = 60;

/// Corner radius of the button outline before it is inset.
pub const CORNER_RADIUS: u32 = 10;

/// Offset of the button outline from its cell edge; negative moves it inward.
pub const BUTTON_INSET: i32 = -3;

/// Width of the button border.
pub const BORDER_WIDTH: u32 = 1;

/// 5-6-5 packed black.
pub const BLACK: u16 = 0x0000;

/// 5-6-5 packed white.
pub const WHITE: u16 = 0xffff;

/// 5-6-5 packed salmon (250, 128, 114).
pub const SALMON: u16 = 0xf40e;

/// 5-6-5 packed dim gray (105, 105, 105).
pub const DIM_GRAY: u16 = 0x6b4d;

/// Whether a key is drawn pressed or released.
#[derive(Clone, Copy, Debug, PartialEq, Eq, Structural)]
pub enum Direction {
    Up,
    Down,
}

/// The colours of one button.
#[derive(Clone, Copy, Debug, PartialEq, Eq, Structural)]
pub struct ButtonStyle {
    pub bg_color: u16,
    pub border_color: u16,
    pub text_color: u16,
}

/// The style of a pressed button.
pub open spec fn pressed_style() -> ButtonStyle {
    ButtonStyle { bg_color: SALMON, border_color: DIM_GRAY, text_color: BLACK }
}

/// The style of a released button.
pub open spec fn unpressed_style() -> ButtonStyle {
    ButtonStyle { bg_color: BLACK, border_color: WHITE, text_color: WHITE }
}

/// The style a key is drawn in after moving in `d`.
pub open spec fn style_for(d: Direction) -> ButtonStyle {
    match d {
        Direction::Down => pressed_style(),
        Direction::Up => unpressed_style(),
    }
}

impl ButtonStyle {
    /// Salmon fill, dim gray border, black label.
    pub fn pressed() -> (s: ButtonStyle)
        ensures
            s == pressed_style(),
    {
        ButtonStyle { bg_color: SALMON, border_color: DIM_GRAY, text_color: BLACK }
    }

    /// Black fill, white border, white label.
    pub fn unpressed() -> (s: ButtonStyle)
        ensures
            s == unpressed_style(),
    {
        ButtonStyle { bg_color: BLACK, border_color: WHITE, text_color: WHITE }
    }
}

/// The top-left corner of the cell in `row`, `col`.
pub open spec fn cell_origin(row: int, col: int) -> Point {
    Point { x: (col * BUTTON_WIDTH) as i32, y: (row * BUTTON_HEIGHT) as i32 }
}

/// The grid cell of key `k`.
pub open spec fn cell_bounds(k: Key) -> Rect {
    Rect {
        top_left: cell_origin(k.row as int, k.col as int),
        size: Size { width: BUTTON_WIDTH, height: BUTTON_HEIGHT },
    }
}

/// The middle pixel of `r`, rounding towards the top left.
pub open spec fn center_of(r: Rect) -> Point {
    Point {
        x: (r.top_left.x + (r.size.width - 1) / 2) as i32,
        y: (r.top_left.y + (r.size.height - 1) / 2) as i32,
    }
}

/// The top-left corner of the cell in `row`, `col`.
pub fn button_pos(row: usize, col: usize) -> (p: Point)
    requires
        row < N_ROWS,
        col < N_COLS,
    ensures
        p == cell_origin(row as int, col as int),
{
    Point { x: (col as u32 * BUTTON_WIDTH) as i32, y: (row as u32 * BUTTON_HEIGHT) as i32 }
}

/// One on-screen key.
#[derive(Clone, Copy, Debug, PartialEq, Eq, Structural)]
pub struct Button {
    pub top_left: Point,
    pub style: ButtonStyle,
    pub key: Key,
}

impl Button {
    /// The cell of the button.
    pub open spec fn cell(self) -> Rect {
        Rect { top_left: self.top_left, size: Size { width: BUTTON_WIDTH, height: BUTTON_HEIGHT } }
    }

    /// The button's cell lies on the panel.
    pub open spec fn fits(self) -> bool {
        on_panel(self.cell())
    }

    /// The bytes of the button's rounded rectangle, border or inside.
    pub open spec fn shape_area(self) -> Map<int, bool> {
        rounded_rect_area(self.cell(), CORNER_RADIUS, BUTTON_INSET, BORDER_WIDTH)
    }

    /// The bytes of the button's label glyph.
    pub open spec fn label_area(self) -> Set<int> {
        let c = center_of(self.cell());
        label_area(self.cell(), label_of(self.key.col, self.key.row), c.x, c.y)
    }

    /// `frame` with this button drawn on it: the inset rounded rectangle, then
    /// the label centred in the cell, both clipped to the cell.
    pub open spec fn drawn(self, frame: Seq<u8>) -> Seq<u8> {
        paint(
            paint_shape(frame, self.shape_area(), self.style.bg_color, self.style.border_color),
            self.label_area(),
            self.style.text_color,
        )
    }

    /// The button of `key` with its cell at `top_left`, drawn in `style`.
    pub fn new(key: Key, top_left: Point, style: ButtonStyle) -> (b: Button)
        ensures
            b == (Button { top_left, style, key }),
    {
        Button { key, top_left, style }
    }

    /// The cell the button occupies.
    pub fn bounds(&self) -> (r: Rect)
        ensures
            r == self.cell(),
    {
        Rect { top_left: self.top_left, size: Size { width: BUTTON_WIDTH, height: BUTTON_HEIGHT } }
    }

    /// Draws the button into `fb`; nothing outside its cell changes.
    pub fn draw(&self, fb: &mut FrameBuffer)
        requires
            old(fb).wf(),
            self.fits(),
        ensures
            final(fb).wf(),
            final(fb)@ == self.drawn(old(fb)@),
            forall|i: int|
                0 <= i < FRAME_SIZE && !byte_in_rect(i, self.cell()) ==> #[trigger] final(fb)@[i]
                    == old(fb)@[i],
    {
        let cell = self.bounds();
        fb.fill_rounded_rect(
            cell,
            CORNER_RADIUS,
            BUTTON_INSET,
            BORDER_WIDTH,
            self.style.bg_color,
            self.style.border_color,
        );
        let cx = cell.top_left.x + ((cell.size.width - 1) / 2) as i32;
        let cy = cell.top_left.y + ((cell.size.height - 1) / 2) as i32;
        fb.draw_label(cell, self.key.char(), cx, cy, self.style.text_color);
    }
}

/// The button of `key` in its own cell, in the style for `d`.
pub open spec fn key_button(key: Key, d: Direction) -> Button {
    Button { top_left: cell_origin(key.row as int, key.col as int), style: style_for(d), key }
}

/// Redraws `key`'s button in the style for `direction` and returns the
/// damaged region, which is exactly the key's cell.
pub fn update(key: Key, direction: Direction, target: &mut FrameBuffer) -> (r: Rect)
    requires
        key.on_grid(),
        old(target).wf(),
    ensures
        r == cell_bounds(key),
        final(target).wf(),
        final(target)@ == key_button(key, direction).drawn(old(target)@),
        forall|i: int|
            0 <= i < FRAME_SIZE && !byte_in_rect(i, r) ==> #[trigger] final(target)@[i]
                == old(target)@[i],
{
    let point = button_pos(key.row as usize, key.col as usize);
    let style = match direction {
        Direction::Down => ButtonStyle::pressed(),
        Direction::Up => ButtonStyle::unpressed(),
    };
    let btn = Button::new(key, point, style);
    btn.draw(target);
    btn.bounds()
}


/// Idempotent draw: drawing the same button twice leaves the frame exactly as
/// drawing it once, whatever the frame held before.
pub proof fn lemma_draw_idempotent(b: Button, frame: Seq<u8>)
    ensures
        b.drawn(b.drawn(frame)) == b.drawn(frame),
{
    assert(b.drawn(b.drawn(frame)) =~= b.drawn(frame));
}

/// Styles differ in colour only: drawing a key's button in one style and then
/// in another leaves the frame exactly as drawing it in the second alone.
pub proof fn lemma_redraw_replaces(first: Button, second: Button, frame: Seq<u8>)
    requires
        first.top_left == second.top_left,
        first.key == second.key,
    ensures
        second.drawn(first.drawn(frame)) == second.drawn(frame),
{
    assert(second.drawn(first.drawn(frame)) =~= second.drawn(frame));
}

/// Pressing then releasing a key restores its cell: on a frame where the key
/// was last drawn released, redrawing it pressed and then released gives back
/// the same frame, byte for byte.
pub proof fn lemma_press_release_restores(key: Key, frame: Seq<u8>)
    ensures
        key_button(key, Direction::Up).drawn(
            key_button(key, Direction::Down).drawn(key_button(key, Direction::Up).drawn(frame)),
        ) == key_button(key, Direction::Up).drawn(frame),
{
    let up = key_button(key, Direction::Up);
    let down = key_button(key, Direction::Down);
    lemma_redraw_replaces(down, up, up.drawn(frame));
    lemma_draw_idempotent(up, frame);
}

/// The key in place `n` of the grid, row by row.
pub open spec fn key_at(n: int) -> Key {
    Key { col: (n % (N_COLS as int)) as u8, row: (n / (N_COLS as int)) as u8 }
}

/// `frame` with the first `n` keys of the grid drawn unpressed, row by row.
pub open spec fn grid_drawn(frame: Seq<u8>, n: int) -> Seq<u8>
    decreases n,
{
    if n <= 0 {
        frame
    } else {
        key_button(key_at(n - 1), Direction::Up).drawn(grid_drawn(frame, n - 1))
    }
}

/// The frame shown at startup: every key drawn unpressed on black.
pub open spec fn startup_frame() -> Seq<u8> {
    grid_drawn(Seq::new(FRAME_SIZE as nat, |i: int| 0u8), (N_ROWS * N_COLS) as int)
}

/// The key an event is about, and the way it moved.
pub open spec fn event_key(e: KeyEvent) -> (Key, Direction) {
    match e {
        KeyEvent::KeyDown(k) => (k, Direction::Down),
        KeyEvent::KeyUp(k) => (k, Direction::Up),
    }
}

proof fn lemma_stripe_bounds(i: int, y: int)
    requires
        0 <= i,
        0 <= y,
    ensures
        i < y * (ROW_BYTES as int) ==> (i / 2) / 240 < y,
        i >= (y + BUTTON_HEIGHT) * (ROW_BYTES as int) ==> (i / 2) / 240 >= y + BUTTON_HEIGHT,
{
    assert(i < y * 480 ==> (i / 2) / 240 < y) by (nonlinear_arith)
        requires
            0 <= i,
            0 <= y,
    ;
    assert(i >= (y + 60) * 480 ==> (i / 2) / 240 >= y + 60) by (nonlinear_arith)
        requires
            0 <= i,
            0 <= y,
    ;
}

/// Owns the frame buffer and turns key events into redraws and pushes.
pub struct Renderer {
    fb: FrameBuffer,
}

impl View for Renderer {
    type V = Seq<u8>;

    closed spec fn view(&self) -> Seq<u8> {
        self.fb@
    }
}

impl Renderer {
    /// The renderer holds one whole frame.
    pub closed spec fn wf(&self) -> bool {
        self.fb.wf()
    }

    /// Draws the whole keypad unpressed on a black frame and returns the
    /// renderer with the one push that must reach the panel first: the whole
    /// frame.
    pub fn start() -> (r: (Renderer, RegionPush))
        ensures
            r.0.wf(),
            r.0@ == startup_frame(),
            r.1 == full_push(),
    {
        let mut fb = FrameBuffer::new();
        fb.clear(BLACK);
        proof {
            assert((0u16 >> 8u16) as u8 == 0u8 && (0u16 & 0xffu16) as u8 == 0u8) by (bit_vector);
            assert forall|i: int| 0 <= i < FRAME_SIZE implies #[trigger] fb@[i] == 0u8 by {
                assert(fb@[i] == color_byte(0u16, i));
            }
            assert(fb@ =~= grid_drawn(Seq::new(FRAME_SIZE as nat, |i: int| 0u8), 0));
        }
        let mut row: usize = 0;
        while row < N_ROWS
            invariant
                row <= N_ROWS,
                fb.wf(),
                fb@ == grid_drawn(Seq::new(FRAME_SIZE as nat, |i: int| 0u8), (row * N_COLS) as int),
            decreases N_ROWS - row,
        {
            let mut col: usize = 0;
            while col < N_COLS
                invariant
                    row < N_ROWS,
                    col <= N_COLS,
                    fb.wf(),
                    fb@ == grid_drawn(
                        Seq::new(FRAME_SIZE as nat, |i: int| 0u8),
                        (row * N_COLS + col) as int,
                    ),
                decreases N_COLS - col,
            {
                let key = Key { row: row as u8, col: col as u8 };
                let btn = Button::new(key, button_pos(row, col), ButtonStyle::unpressed());
                btn.draw(&mut fb);
                proof {
                    let n = (row * N_COLS + col) as int;
                    assert(key_at(n) == key);
                    assert(btn == key_button(key, Direction::Up));
                }
                col = col + 1;
            }
            row = row + 1;
        }
        (Renderer { fb }, push_full())
    }

    /// The frame buffer.
    pub fn frame(&self) -> (fb: &FrameBuffer)
        ensures
            fb@ == self@,
            fb.wf() == self.wf(),
    {
        &self.fb
    }

    /// Redraws the key of `event` in the style of its new level and returns
    /// the push for the full-width stripe of rows of the key's cell. Every
    /// byte that changed lies in that stripe.
    pub fn handle_event(&mut self, event: KeyEvent) -> (p: RegionPush)
        requires
            old(self).wf(),
            event_key(event).0.on_grid(),
        ensures
            final(self).wf(),
            final(self)@ == key_button(event_key(event).0, event_key(event).1).drawn(
                old(self)@,
            ),
            p == stripe_push(cell_bounds(event_key(event).0).top_left.y as int, BUTTON_HEIGHT as int),
            p.start <= p.end <= FRAME_SIZE,
            forall|i: int|
                0 <= i < FRAME_SIZE && !(p.start <= i < p.end) ==> #[trigger] final(self)@[i]
                    == old(self)@[i],
    {
        let bounds = match event {
            KeyEvent::KeyDown(key) => update(key, Direction::Down, &mut self.fb),
            KeyEvent::KeyUp(key) => update(key, Direction::Up, &mut self.fb),
        };
        let y = bounds.top_left.y as u16;
        let height = bounds.size.height as u16;
        let p = push_region(y, height);
        proof {
            assert forall|i: int|
                0 <= i < FRAME_SIZE && !(p.start <= i < p.end) implies !byte_in_rect(i, bounds) by {
                lemma_stripe_bounds(i, y as int);
            }
        }
        p
    }
}

} // verus!
