//! The frame buffer the renderer draws into, the geometry it draws with, and
//! the pixel-pushing requests handed to the display transport.
use vstd::prelude::*;

use embedded_graphics::draw_target::{DrawTarget, DrawTargetExt};
use embedded_graphics::geometry::{Point as EgPoint, Size as EgSize};
use embedded_graphics::pixelcolor::raw::RawU16;
use embedded_graphics::pixelcolor::Rgb565;
use embedded_graphics::primitives::{
    OffsetOutline, PrimitiveStyleBuilder, Rectangle, RoundedRectangle, StyledDrawable,
};
use embedded_graphics::text::{Alignment, Baseline, Text, TextStyleBuilder};
use embedded_graphics::Drawable;
use lcd_async::raw_framebuf::RawFrameBuf;
use u8g2_fonts::fonts::u8g2_font_helvB18_te;
use u8g2_fonts::U8g2TextStyle;

verus! {

/// Panel width in pixels.
pub const WIDTH: u16 = 240;

/// Panel height in pixels.
pub const HEIGHT: u16 = 240;

/// Bytes per pixel: 5-6-5 packed colour, most significant byte first.
pub const PIXEL_SIZE: usize = 2;

/// Bytes in one full frame.
pub const FRAME_SIZE: usize = 115200;

/// Bytes in one full-width row of pixels.
pub const ROW_BYTES: usize = 480;

/// A pixel position; `x` grows to the right, `y` downwards.
#[derive(Clone, Copy, Debug, PartialEq, Eq, Structural)]
pub struct Point {
    pub x: i32,
    pub y: i32,
}

/// A width and height in pixels.
#[derive(Clone, Copy, Debug, PartialEq, Eq, Structural)]
pub struct Size {
    pub width: u32,
    pub height: u32,
}

/// An axis-aligned rectangle.
#[derive(Clone, Copy, Debug, PartialEq, Eq, Structural)]
pub struct Rect {
    pub top_left: Point,
    pub size: Size,
}

/// Whether byte `i` of a frame belongs to a pixel inside `r`.
pub open spec fn byte_in_rect(i: int, r: Rect) -> bool {
    let p = i / (PIXEL_SIZE as int);
    let px = p % (WIDTH as int);
    let py = p / (WIDTH as int);
    r.top_left.x <= px < r.top_left.x + r.size.width && r.top_left.y <= py < r.top_left.y
        + r.size.height
}

/// Byte `i` of a frame whose pixel is painted `color`: the most significant
/// byte of the colour at even offsets, the least significant at odd ones.
pub open spec fn color_byte(color: u16, i: int) -> u8 {
    if i % 2 == 0 {
        (color >> 8u16) as u8
    } else {
        (color & 0xffu16) as u8
    }
}

/// `r` lies wholly on the panel.
pub open spec fn on_panel(r: Rect) -> bool {
    0 <= r.top_left.x && r.top_left.x + r.size.width <= WIDTH && 0 <= r.top_left.y
        && r.top_left.y + r.size.height <= HEIGHT
}

/// The smaller side of `r`.
pub open spec fn min_side(r: Rect) -> int {
    if r.size.width <= r.size.height {
        r.size.width as int
    } else {
        r.size.height as int
    }
}

/// A rounded rectangle drawn in `cell` fits it: the cell is on the panel, and
/// the corner radius, the inward offset and the border width are no larger
/// than the cell's smaller side.
pub open spec fn shape_fits(cell: Rect, corner: u32, inset: i32, stroke: u32) -> bool {
    &&& on_panel(cell)
    &&& corner <= min_side(cell)
    &&& -min_side(cell) <= inset <= 0
    &&& stroke <= min_side(cell)
}

/// The point `(x, y)` lies in `r`.
pub open spec fn contains_point(r: Rect, x: i32, y: i32) -> bool {
    r.top_left.x <= x < r.top_left.x + r.size.width && r.top_left.y <= y < r.top_left.y
        + r.size.height
}

/// `frame` with the bytes of `area` painted: those mapped to `true` (the
/// border) in `border`, those mapped to `false` (the inside) in `fill`.
pub open spec fn paint_shape(frame: Seq<u8>, area: Map<int, bool>, fill: u16, border: u16) -> Seq<
    u8,
> {
    Seq::new(
        frame.len(),
        |i: int|
            if area.dom().contains(i) {
                if area[i] {
                    color_byte(border, i)
                } else {
                    color_byte(fill, i)
                }
            } else {
                frame[i]
            },
    )
}

/// `frame` with the bytes of `area` painted `color`.
pub open spec fn paint(frame: Seq<u8>, area: Set<int>, color: u16) -> Seq<u8> {
    Seq::new(frame.len(), |i: int| if area.contains(i) { color_byte(color, i) } else { frame[i] })
}

/// The bytes, by frame offset, that drawing a rounded rectangle writes, each
/// mapped to whether it belongs to the border (`true`) or the inside
/// (`false`): the outline `cell` with equal corner radii `corner`, grown by
/// `inset` on every side, bordered `stroke` pixels wide, clipped to `cell`.
/// The colours do not enter: they only decide what the bytes hold.
pub uninterp spec fn rounded_rect_area(cell: Rect, corner: u32, inset: i32, stroke: u32) -> Map<
    int,
    bool,
>;

/// The bytes, by frame offset, of the glyph pixels of `label` in the bold
/// 18-pixel Helvetica face, centred on `(x, y)` and clipped to `cell`. The
/// colour does not enter: the background is transparent.
pub uninterp spec fn label_area(cell: Rect, label: char, x: i32, y: i32) -> Set<int>;

/// Relies on `DrawTarget::clear` of lcd_async's `RawFrameBuf`: every pixel of
/// the frame gets the two bytes of `color`, most significant first.
#[verifier::external_body]
fn clear_frame(frame: &mut Vec<u8>, color: u16)
    requires
        old(frame)@.len() == FRAME_SIZE,
    ensures
        final(frame)@.len() == FRAME_SIZE,
        forall|i: int| 0 <= i < FRAME_SIZE ==> #[trigger] final(frame)@[i] == color_byte(color, i),
{
    let mut fb = RawFrameBuf::<Rgb565, &mut [u8]>::new(frame.as_mut_slice(), WIDTH as usize, HEIGHT as usize);
    let _ = fb.clear(Rgb565::from(RawU16::new(color)));
}

/// Relies on embedded_graphics' styled `RoundedRectangle` drawn through a
/// target `clipped` to `cell`, into lcd_async's `RawFrameBuf`: with both
/// colours given, the border and inside pixels are set by the geometry alone;
/// border pixels get `border`, inside pixels `fill`, two bytes each, most
/// significant first; nothing outside the clip area is written.
#[verifier::external_body]
fn draw_rounded_rect(
    frame: &mut Vec<u8>,
    cell: Rect,
    corner: u32,
    inset: i32,
    stroke: u32,
    fill: u16,
    border: u16,
)
    requires
        old(frame)@.len() == FRAME_SIZE,
        shape_fits(cell, corner, inset, stroke),
    ensures
        final(frame)@ == paint_shape(
            old(frame)@,
            rounded_rect_area(cell, corner, inset, stroke),
            fill,
            border,
        ),
        forall|i: int|
            0 <= i < FRAME_SIZE && !byte_in_rect(i, cell) ==> #[trigger] final(frame)@[i]
                == old(frame)@[i],
{
    let mut fb = RawFrameBuf::<Rgb565, &mut [u8]>::new(frame.as_mut_slice(), WIDTH as usize, HEIGHT as usize);
    let area = Rectangle::new(
        EgPoint::new(cell.top_left.x, cell.top_left.y),
        EgSize::new(cell.size.width, cell.size.height),
    );
    let style = PrimitiveStyleBuilder::new().stroke_color(Rgb565::from(RawU16::new(border))).fill_color(
        Rgb565::from(RawU16::new(fill)),
    ).stroke_width(stroke).build();
    let shape = RoundedRectangle::with_equal_corners(area, EgSize::new(corner, corner)).offset(inset);
    let _ = shape.draw_styled(&style, &mut fb.clipped(&area));
}

/// Relies on embedded_graphics' `Text` with u8g2_fonts' `U8g2TextStyle` in
/// `u8g2_font_helvB18_te`, centred and middle-aligned, drawn through a target
/// `clipped` to `cell` into lcd_async's `RawFrameBuf`: with a transparent
/// background only glyph pixels are written, each with the two bytes of
/// `color`, most significant first; which pixels those are does not depend on
/// the colour; nothing outside the clip area is written.
#[verifier::external_body]
fn draw_label(frame: &mut Vec<u8>, cell: Rect, label: char, x: i32, y: i32, color: u16)
    requires
        old(frame)@.len() == FRAME_SIZE,
        on_panel(cell),
        contains_point(cell, x, y),
    ensures
        final(frame)@ == paint(old(frame)@, label_area(cell, label, x, y), color),
        forall|i: int|
            0 <= i < FRAME_SIZE && !byte_in_rect(i, cell) ==> #[trigger] final(frame)@[i]
                == old(frame)@[i],
{
    let mut fb = RawFrameBuf::<Rgb565, &mut [u8]>::new(frame.as_mut_slice(), WIDTH as usize, HEIGHT as usize);
    let area = Rectangle::new(
        EgPoint::new(cell.top_left.x, cell.top_left.y),
        EgSize::new(cell.size.width, cell.size.height),
    );
    let mut buf = [0u8; 4];
    let style = U8g2TextStyle::new(u8g2_font_helvB18_te, Rgb565::from(RawU16::new(color)));
    let align = TextStyleBuilder::new().alignment(Alignment::Center).baseline(Baseline::Middle).build();
    let text = Text::with_text_style(label.encode_utf8(&mut buf), EgPoint::new(x, y), style, align);
    let _ = text.draw(&mut fb.clipped(&area));
}

/// The pixel bytes of the whole panel, row-major, two bytes per pixel.
pub struct FrameBuffer {
    bytes: Vec<u8>,
}

impl View for FrameBuffer {
    type V = Seq<u8>;

    closed spec fn view(&self) -> Seq<u8> {
        self.bytes@
    }
}

impl FrameBuffer {
    /// A frame buffer holds exactly one frame.
    pub open spec fn wf(&self) -> bool {
        self@.len() == FRAME_SIZE
    }

    /// A frame of zero bytes (every pixel black).
    pub fn new() -> (fb: FrameBuffer)
        ensures
            fb.wf(),
            fb@ == Seq::new(FRAME_SIZE as nat, |i: int| 0u8),
    {
        let fb = FrameBuffer { bytes: vec![0u8; FRAME_SIZE] };
        assert(fb@ =~= Seq::new(FRAME_SIZE as nat, |i: int| 0u8));
        fb
    }

    /// The frame's bytes.
    pub fn as_bytes(&self) -> (b: &[u8])
        ensures
            b@ == self@,
    {
        self.bytes.as_slice()
    }

    /// Paints every pixel `color`.
    pub fn clear(&mut self, color: u16)
        requires
            old(self).wf(),
        ensures
            final(self).wf(),
            forall|i: int| 0 <= i < FRAME_SIZE ==> #[trigger] final(self)@[i] == color_byte(color, i),
    {
        clear_frame(&mut self.bytes, color);
    }

    /// Draws a filled, bordered rounded rectangle clipped to `cell`; the border
    /// bytes get `border`, the inside bytes `fill`.
    pub fn fill_rounded_rect(
        &mut self,
        cell: Rect,
        corner: u32,
        inset: i32,
        stroke: u32,
        fill: u16,
        border: u16,
    )
        requires
            old(self).wf(),
            shape_fits(cell, corner, inset, stroke),
        ensures
            final(self).wf(),
            final(self)@ == paint_shape(
                old(self)@,
                rounded_rect_area(cell, corner, inset, stroke),
                fill,
                border,
            ),
            forall|i: int|
                0 <= i < FRAME_SIZE && !byte_in_rect(i, cell) ==> #[trigger] final(self)@[i]
                    == old(self)@[i],
    {
        draw_rounded_rect(&mut self.bytes, cell, corner, inset, stroke, fill, border);
    }

    /// Draws `label` centred on `(x, y)` in `color`, clipped to `cell`.
    pub fn draw_label(&mut self, cell: Rect, label: char, x: i32, y: i32, color: u16)
        requires
            old(self).wf(),
            on_panel(cell),
            contains_point(cell, x, y),
        ensures
            final(self).wf(),
            final(self)@ == paint(old(self)@, label_area(cell, label, x, y), color),
            forall|i: int|
                0 <= i < FRAME_SIZE && !byte_in_rect(i, cell) ==> #[trigger] final(self)@[i]
                    == old(self)@[i],
    {
        draw_label(&mut self.bytes, cell, label, x, y, color);
    }
}

/// A request to the display transport: the pixels of the panel region at
/// `(x, y)` of `width` by `height`, which are the frame bytes `[start, end)`.
#[derive(Clone, Copy, Debug, PartialEq, Eq, Structural)]
pub struct RegionPush {
    pub x: u16,
    pub y: u16,
    pub width: u16,
    pub height: u16,
    pub start: usize,
    pub end: usize,
}

/// The push of the whole frame.
pub open spec fn full_push() -> RegionPush {
    RegionPush { x: 0, y: 0, width: WIDTH, height: HEIGHT, start: 0, end: FRAME_SIZE }
}

/// The push of the full-width stripe of rows `[y, y + height)`.
pub open spec fn stripe_push(y: int, height: int) -> RegionPush {
    RegionPush {
        x: 0,
        y: y as u16,
        width: WIDTH,
        height: height as u16,
        start: (y * ROW_BYTES) as usize,
        end: ((y + height) * ROW_BYTES) as usize,
    }
}

/// The request that sends the whole frame.
pub fn push_full() -> (p: RegionPush)
    ensures
        p == full_push(),
{
    RegionPush { x: 0, y: 0, width: WIDTH, height: HEIGHT, start: 0, end: FRAME_SIZE }
}

/// The request that sends the full-width stripe of rows `[y, y + height)`.
pub fn push_region(y: u16, height: u16) -> (p: RegionPush)
    requires
        y + height <= HEIGHT,
    ensures
        p == stripe_push(y as int, height as int),
        p.start <= p.end <= FRAME_SIZE,
{
    let start = (y as usize) * ROW_BYTES;
    let end = (y as usize + height as usize) * ROW_BYTES;
    RegionPush { x: 0, y, width: WIDTH, height, start, end }
}

} // verus!
