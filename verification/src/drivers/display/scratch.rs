//! A zone-sized RAM buffer.
//!
//! Exists for write-through displays, which have no RAM framebuffer: widgets
//! draw fine-grained output (dither patterns, arc strokes, glyphs) that
//! degenerates into thousands of one-pixel bus transactions when drawn straight
//! to such a display. Rendering a zone here first and then writing it as one
//! contiguous block turns that into one streamed write.

use vstd::prelude::*;

use crate::drivers::display::geometry::{Point, Rectangle, Size};

verus! {

/// Zone-sized scratch buffer, reused across renders (its allocation grows to the
/// largest zone and stays there).
#[derive(Debug)]
pub struct ZoneScratch<C> {
    size: Size,
    /// Row by row from the top, each row from the left.
    pixels: Vec<C>,
}

/// The contents of a scratch buffer.
#[verifier::ext_equal]
pub struct Raster<C> {
    pub size: Size,
    pub pixels: Seq<C>,
}

impl<C> View for ZoneScratch<C> {
    type V = Raster<C>;

    closed spec fn view(&self) -> Raster<C> {
        Raster { size: self.size, pixels: self.pixels@ }
    }
}

/// A buffer of one color.
pub open spec fn blank<C>(size: Size, background: C) -> Raster<C> {
    Raster {
        size,
        pixels: Seq::new((size.width * size.height) as nat, |i: int| background),
    }
}

impl<C> Raster<C> {
    /// Whether there is a pixel for every place.
    pub open spec fn complete(self) -> bool {
        self.pixels.len() == self.size.width * self.size.height
    }

    /// Whether a place lies in the buffer.
    pub open spec fn has(self, x: int, y: int) -> bool {
        0 <= x < self.size.width && 0 <= y < self.size.height
    }

    /// The color at a place.
    pub open spec fn at(self, x: int, y: int) -> C {
        self.pixels[y * self.size.width + x]
    }

    /// The buffer after one pixel was drawn; places outside take none.
    pub open spec fn with_pixel(self, x: int, y: int, color: C) -> Raster<C> {
        if self.has(x, y) {
            Raster { pixels: self.pixels.update(y * self.size.width + x, color), ..self }
        } else {
            self
        }
    }
}

proof fn lemma_place_in_raster(x: int, y: int, width: int, height: int)
    requires
        0 <= x < width,
        0 <= y < height,
    ensures
        0 <= y * width + x < width * height,
{
    assert(y * width + x < width * height) by (nonlinear_arith)
        requires
            0 <= x < width,
            0 <= y < height,
    ;
    assert(0 <= y * width) by (nonlinear_arith)
        requires
            0 <= x < width,
            0 <= y < height,
    ;
}

proof fn lemma_places_differ(x: int, y: int, u: int, v: int, width: int)
    requires
        0 <= x < width,
        0 <= u < width,
        y * width + x == v * width + u,
    ensures
        x == u,
        y == v,
{
    assert(y == v) by (nonlinear_arith)
        requires
            0 <= x < width,
            0 <= u < width,
            y * width + x == v * width + u,
    ;
}

impl<C> ZoneScratch<C> {
    #[verifier::type_invariant]
    spec fn inv(self) -> bool {
        &&& self@.complete()
        &&& self.size.width * self.size.height <= u32::MAX
    }
}

impl<C: Copy> ZoneScratch<C> {
    /// An empty buffer.
    pub fn new() -> (scratch: Self)
        ensures
            scratch@ == (Raster::<C> {
                size: Size { width: 0, height: 0 },
                pixels: Seq::empty(),
            }),
    {
        ZoneScratch { size: Size { width: 0, height: 0 }, pixels: Vec::new() }
    }

    /// Make the buffer one of the given size and color.
    pub fn reset(&mut self, size: Size, background: C)
        requires
            size.width * size.height <= u32::MAX,
        ensures
            final(self)@ == blank(size, background),
    {
        let mut last: Self = ZoneScratch::new();
        std::mem::swap(&mut last, self);
        let mut pixels: Vec<C> = last.pixels;
        pixels.clear();
        let area: u32 = size.width * size.height;
        let mut i: u32 = 0;
        while i < area
            invariant
                i <= area,
                pixels@ == Seq::new(i as nat, |k: int| background),
            decreases area - i,
        {
            pixels.push(background);
            i += 1;
            assert(pixels@ =~= Seq::new(i as nat, |k: int| background));
        }
        *self = ZoneScratch { size, pixels };
        assert(self@ =~= blank(size, background));
    }

    pub fn size(&self) -> (size: Size)
        ensures
            size == self@.size,
            self@.complete(),
    {
        proof {
            use_type_invariant(self);
        }
        self.size
    }

    /// The colors, row by row from the top, each row from the left.
    pub fn pixels(&self) -> (pixels: &Vec<C>)
        ensures
            pixels@ == self@.pixels,
    {
        &self.pixels
    }

    /// Draw one pixel; a place outside the buffer takes none.
    pub fn draw_pixel(&mut self, p: Point, color: C)
        ensures
            final(self)@ == old(self)@.with_pixel(p.x as int, p.y as int, color),
    {
        if p.x >= 0 && p.y >= 0 && (p.x as u32) < self.size.width && (p.y as u32)
            < self.size.height {
            proof {
                use_type_invariant(&*self);
                lemma_place_in_raster(
                    p.x as int,
                    p.y as int,
                    self.size.width as int,
                    self.size.height as int,
                );
                assert(0 <= p.y * self.size.width) by (nonlinear_arith)
                    requires
                        0 <= p.y,
                        0 <= self.size.width,
                ;
            }
            let place: u32 = p.y as u32 * self.size.width + p.x as u32;
            let mut last: Self = ZoneScratch::new();
            std::mem::swap(&mut last, self);
            let size: Size = last.size;
            let mut pixels: Vec<C> = last.pixels;
            pixels[place as usize] = color;
            *self = ZoneScratch { size, pixels };
        }
    }
}

/// What a display shows: a color for every place.
pub type Picture<C> = spec_fn(int, int) -> C;

/// A picture after a rectangle was filled with one color.
pub open spec fn filled<C>(picture: Picture<C>, rect: Rectangle, color: C) -> Picture<C> {
    |x: int, y: int|
        if rect.covers(x, y) {
            color
        } else {
            picture(x, y)
        }
}

/// A picture after pixels were drawn in order, clipped to a rectangle.
pub open spec fn drawn_clipped<C>(
    picture: Picture<C>,
    rect: Rectangle,
    pixels: Seq<(int, int, C)>,
) -> Picture<C>
    decreases pixels.len(),
{
    if pixels.len() == 0 {
        picture
    } else {
        let before = drawn_clipped(picture, rect, pixels.drop_last());
        let (px, py, color) = pixels.last();
        |x: int, y: int|
            if rect.covers(x, y) && x == px && y == py {
                color
            } else {
                before(x, y)
            }
    }
}

/// A buffer after the same pixels were drawn, moved so that `origin` falls on
/// the buffer's first place.
pub open spec fn drawn_buffered<C>(
    raster: Raster<C>,
    origin: Point,
    pixels: Seq<(int, int, C)>,
) -> Raster<C>
    decreases pixels.len(),
{
    if pixels.len() == 0 {
        raster
    } else {
        let (px, py, color) = pixels.last();
        drawn_buffered(raster, origin, pixels.drop_last()).with_pixel(
            px - origin.x,
            py - origin.y,
            color,
        )
    }
}

/// A picture after a buffer was written over a rectangle as one block.
pub open spec fn blitted<C>(picture: Picture<C>, rect: Rectangle, raster: Raster<C>) -> Picture<C> {
    |x: int, y: int|
        if rect.covers(x, y) {
            raster.at(x - rect.top_left.x, y - rect.top_left.y)
        } else {
            picture(x, y)
        }
}

proof fn lemma_buffer_matches<C>(
    picture: Picture<C>,
    rect: Rectangle,
    background: C,
    pixels: Seq<(int, int, C)>,
)
    ensures
        ({
            let direct = drawn_clipped(filled(picture, rect, background), rect, pixels);
            let raster = drawn_buffered(blank(rect.size, background), rect.top_left, pixels);
            &&& raster.size == rect.size
            &&& raster.complete()
            &&& forall|x: int, y: int|
                #![trigger direct(x, y)]
                if rect.covers(x, y) {
                    direct(x, y) == raster.at(x - rect.top_left.x, y - rect.top_left.y)
                } else {
                    direct(x, y) == picture(x, y)
                }
        }),
    decreases pixels.len(),
{
    let direct = drawn_clipped(filled(picture, rect, background), rect, pixels);
    let raster = drawn_buffered(blank(rect.size, background), rect.top_left, pixels);
    let width = rect.size.width as int;
    let height = rect.size.height as int;
    if pixels.len() == 0 {
        assert(0 <= width * height) by (nonlinear_arith)
            requires
                0 <= width,
                0 <= height,
        ;
        assert forall|x: int, y: int| #![trigger direct(x, y)] if rect.covers(x, y) {
            direct(x, y) == raster.at(x - rect.top_left.x, y - rect.top_left.y)
        } else {
            direct(x, y) == picture(x, y)
        } by {
            if rect.covers(x, y) {
                lemma_place_in_raster(x - rect.top_left.x, y - rect.top_left.y, width, height);
            }
        }
    } else {
        lemma_buffer_matches(picture, rect, background, pixels.drop_last());
        let before = drawn_clipped(filled(picture, rect, background), rect, pixels.drop_last());
        let (px, py, color) = pixels.last();
        if rect.covers(px, py) {
            lemma_place_in_raster(px - rect.top_left.x, py - rect.top_left.y, width, height);
        }
        assert forall|x: int, y: int| #![trigger direct(x, y)] if rect.covers(x, y) {
            direct(x, y) == raster.at(x - rect.top_left.x, y - rect.top_left.y)
        } else {
            direct(x, y) == picture(x, y)
        } by {
            let _ = before(x, y);
            let (bx, by) = (x - rect.top_left.x, y - rect.top_left.y);
            let (qx, qy) = (px - rect.top_left.x, py - rect.top_left.y);
            if rect.covers(x, y) {
                lemma_place_in_raster(bx, by, width, height);
                if rect.covers(px, py) && by * width + bx == qy * width + qx {
                    lemma_places_differ(bx, by, qx, qy, width);
                }
            }
        }
    }
}

/// Rendering a zone through the buffer is a pure transport optimization: it
/// leaves the same picture as clearing the zone and drawing into it directly,
/// clipped to the zone.
pub proof fn law_buffering_renders_identically<C>(
    picture: Picture<C>,
    rect: Rectangle,
    background: C,
    pixels: Seq<(int, int, C)>,
)
    ensures
        blitted(
            picture,
            rect,
            drawn_buffered(blank(rect.size, background), rect.top_left, pixels),
        ) == drawn_clipped(filled(picture, rect, background), rect, pixels),
{
    lemma_buffer_matches(picture, rect, background, pixels);
    let direct = drawn_clipped(filled(picture, rect, background), rect, pixels);
    let raster = drawn_buffered(blank(rect.size, background), rect.top_left, pixels);
    let blit = blitted(picture, rect, raster);
    assert forall|x: int, y: int| #[trigger] blit(x, y) == direct(x, y) by {}
    assert(blit =~= direct);
}

/// Rendering a zone, either way, never touches a place outside its rectangle.
pub proof fn law_rendering_stays_in_zone<C>(
    picture: Picture<C>,
    rect: Rectangle,
    background: C,
    pixels: Seq<(int, int, C)>,
    x: int,
    y: int,
)
    requires
        !rect.covers(x, y),
    ensures
        drawn_clipped(filled(picture, rect, background), rect, pixels)(x, y) == picture(x, y),
        blitted(
            picture,
            rect,
            drawn_buffered(blank(rect.size, background), rect.top_left, pixels),
        )(x, y) == picture(x, y),
{
    lemma_buffer_matches(picture, rect, background, pixels);
}

} // verus!
