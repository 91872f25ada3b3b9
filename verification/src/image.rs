use vstd::prelude::*;
use crate::math::Line;
use crate::math::Pos;
use crate::math::Rect;
use crate::math::Size;

verus! {

/// Bit `col` of a row mask: true when the pixel at that column is opaque.
/// Bit 0 (the least significant) is column 0.
pub open spec fn row_bit(row: u32, col: int) -> bool {
    0 <= col < 32 && ((row >> (col as u32)) & 1) == 1
}

/// The display color of a sprite; the rendering collaborator maps it onto a
/// terminal color.
#[derive(Copy, Clone, Debug, PartialEq, Eq, Structural)]
pub enum SpriteColor {
    Red,
    Green,
    LightBlue,
}

/// An immutable bitmap: an ordered sequence of rows, each a bit-per-pixel
/// mask (bit i = column i, least significant bit first), a declared pixel
/// width, and a display color. Height is the row count. Rows are 32-bit
/// words, so the practical width ceiling is 32 pixels.
#[derive(Debug)]
pub struct Image {
    pub pixels: Vec<u32>,
    pub width: u16,
    pub color: SpriteColor,
}

impl Image {
    /// Well-formedness: the width fits the 32-bit row words, the height fits
    /// a `u16`, and no row has an opaque bit at or beyond the declared
    /// width.
    pub open spec fn wf(self) -> bool {
        &&& self.width <= 32
        &&& self.pixels@.len() <= u16::MAX
        &&& forall|i: int, c: int|
            #![trigger row_bit(self.pixels@[i], c)]
            0 <= i < self.pixels@.len() && self.width <= c ==> !row_bit(self.pixels@[i], c)
    }

    pub fn width(&self) -> (r: u16)
        ensures
            r == self.width,
    {
        self.width
    }

    pub fn height(&self) -> (r: u16)
        requires
            self.pixels@.len() <= u16::MAX,
        ensures
            r == self.pixels@.len(),
    {
        self.pixels.len() as u16
    }
}

/// An ordered, non-empty sequence of images; selecting frame `n` yields
/// image `n mod len` — an infinite, cyclic, stateless animation.
pub struct ImageAnimation(pub Vec<Image>);

impl ImageAnimation {
    pub open spec fn wf(self) -> bool {
        &&& self.0@.len() > 0
        &&& forall|i: int| 0 <= i < self.0@.len() ==> (#[trigger] self.0@[i]).wf()
    }

    pub fn image(&self, frame: usize) -> (r: &Image)
        requires
            self.0@.len() > 0,
        ensures
            r == &self.0@[frame as int % self.0@.len() as int],
    {
        &self.0[frame % self.0.len()]
    }
}

/// Which edge of a sprite's bounding box is anchored to its stored
/// position: `Min` anchors the low edge, `Max` the high edge (inclusive of
/// the anchor row or column).
#[derive(Copy, Clone, Debug, PartialEq, Eq, Structural)]
pub enum Origin {
    Min,
    Max,
}

/// The per-axis anchoring of a sprite.
#[derive(Copy, Clone, Debug, PartialEq, Eq, Structural)]
pub struct OriginPair {
    pub x: Origin,
    pub y: Origin,
}

impl OriginPair {
    pub fn new(x: Origin, y: Origin) -> (r: Self)
        ensures
            r == (OriginPair { x, y }),
    {
        OriginPair { x, y }
    }
}

/// Coordinates this far from zero keep every derived bounding-box and
/// viewport computation inside `i32`.
pub open spec fn spec_coord_bounded(v: int) -> bool {
    -500_000_000 <= v <= 500_000_000
}

/// A transient value placing an image at an integer anchor position with a
/// per-axis origin; created fresh every frame.
#[derive(Copy, Clone)]
pub struct Sprite<'a> {
    pub image: &'a Image,
    pub position: Pos,
    pub origin: OriginPair,
}

/// The mathematical content of a sprite: the image by value, the anchor,
/// and the per-axis origin. Contracts and laws speak of this view.
pub struct SpriteV {
    pub image: Image,
    pub position: Pos,
    pub origin: OriginPair,
}

impl<'a> View for Sprite<'a> {
    type V = SpriteV;

    open spec fn view(&self) -> SpriteV {
        SpriteV { image: *self.image, position: self.position, origin: self.origin }
    }
}

impl SpriteV {
    /// Well-formedness: a well-formed image and an anchor far from the
    /// `i32` rim.
    pub open spec fn wf(self) -> bool {
        &&& self.image.wf()
        &&& spec_coord_bounded(self.position.x as int)
        &&& spec_coord_bounded(self.position.y as int)
    }

    /// Low edge of the bounding box on the x axis: at the anchor under a
    /// `Min` origin, `width - 1` before it under `Max`.
    pub open spec fn spec_box_x_start(self) -> int {
        match self.origin.x {
            Origin::Min => self.position.x as int,
            Origin::Max => self.position.x - self.image.width + 1,
        }
    }

    pub open spec fn spec_box_x_end(self) -> int {
        self.spec_box_x_start() + self.image.width
    }

    pub open spec fn spec_box_y_start(self) -> int {
        match self.origin.y {
            Origin::Min => self.position.y as int,
            Origin::Max => self.position.y - self.image.pixels@.len() + 1,
        }
    }

    pub open spec fn spec_box_y_end(self) -> int {
        self.spec_box_y_start() + self.image.pixels@.len()
    }

    /// Whether the point lies inside the sprite's bounding box.
    pub open spec fn spec_box_contains(self, x: int, y: int) -> bool {
        &&& self.spec_box_x_start() <= x < self.spec_box_x_end()
        &&& self.spec_box_y_start() <= y < self.spec_box_y_end()
    }

    /// Whether the sprite has an opaque pixel at the absolute point
    /// `(x, y)`.
    pub open spec fn spec_pixel_at(self, x: int, y: int) -> bool {
        &&& self.spec_box_y_start() <= y < self.spec_box_y_end()
        &&& row_bit(self.image.pixels@[y - self.spec_box_y_start()], x - self.spec_box_x_start())
    }
}

impl<'a> Sprite<'a> {
    /// Well-formedness of the sprite's view.
    pub open spec fn wf(self) -> bool {
        self@.wf()
    }

    /// The axis-aligned rectangle covered by the sprite: `Min`-origin axes
    /// extend forward from the anchor, `Max`-origin axes end just past it.
    pub fn bounding_box(&self) -> (r: Rect)
        requires
            self.wf(),
        ensures
            r.x.start == self@.spec_box_x_start(),
            r.x.end == self@.spec_box_x_end(),
            r.y.start == self@.spec_box_y_start(),
            r.y.end == self@.spec_box_y_end(),
    {
        let x = self.position.x;
        let y = self.position.y;

        let width = self.image.width() as i32;
        let height = self.image.height() as i32;

        Rect {
            x: match self.origin.x {
                Origin::Min => crate::math::Line::new(x, x + width),
                Origin::Max => crate::math::Line::new(x - width + 1, x + 1),
            },
            y: match self.origin.y {
                Origin::Min => crate::math::Line::new(y, y + height),
                Origin::Max => crate::math::Line::new(y - height + 1, y + 1),
            },
        }
    }

    /// Exact pixel-mask collision: true when some opaque pixel of `self`
    /// and some opaque pixel of `other` share an absolute position. Two
    /// sprites with overlapping boxes need not collide if their opaque
    /// pixels never coincide.
    pub fn collide(&self, other: &Sprite) -> (r: bool)
        requires
            self.wf(),
            other.wf(),
        ensures
            r == spec_overlap(self@, other@),
    {
        let box_a = self.bounding_box();
        let box_b = other.bounding_box();

        let inter = match box_a.intersect(box_b) {
            Some(inter) => inter,
            None => {
                proof {
                    assert forall|x: int, y: int|
                        !(self@.spec_pixel_at(x, y) && other@.spec_pixel_at(x, y)) by {
                        if self@.spec_pixel_at(x, y) && other@.spec_pixel_at(x, y) {
                            lemma_pixel_in_box(self@, x, y);
                            lemma_pixel_in_box(other@, x, y);
                            box_a.lemma_intersect_contains(box_b, x, y);
                        }
                    }
                }
                return false;
            },
        };

        let ghost bxa = self@.spec_box_x_start();
        let ghost bxb = other@.spec_box_x_start();

        let mut y: i32 = inter.y.start;
        while y < inter.y.end
            invariant
                self.wf(),
                other.wf(),
                box_a.x.start == self@.spec_box_x_start(),
                box_a.x.end == self@.spec_box_x_end(),
                box_a.y.start == self@.spec_box_y_start(),
                box_a.y.end == self@.spec_box_y_end(),
                box_b.x.start == other@.spec_box_x_start(),
                box_b.x.end == other@.spec_box_x_end(),
                box_b.y.start == other@.spec_box_y_start(),
                box_b.y.end == other@.spec_box_y_end(),
                box_a.spec_intersect(box_b) == Some(inter),
                bxa == self@.spec_box_x_start(),
                bxb == other@.spec_box_x_start(),
                inter.y.start <= y <= inter.y.end,
                forall|px: int, py: int|
                    py < y ==> !(self@.spec_pixel_at(px, py) && other@.spec_pixel_at(px, py)),
            decreases inter.y.end - y,
        {
            proof {
                assert(inter.x.start == if box_a.x.start >= box_b.x.start {
                    box_a.x.start
                } else {
                    box_b.x.start
                });
                assert(inter.x.end == if box_a.x.end <= box_b.x.end {
                    box_a.x.end
                } else {
                    box_b.x.end
                });
                assert(inter.x.start < inter.x.end);
            }
            let row_a: u32 = self.image.pixels[(y - box_a.y.start) as usize];
            let row_b: u32 = other.image.pixels[(y - box_b.y.start) as usize];

            let a_first = box_a.x.start < box_b.x.start;
            let d: u32 = if a_first {
                (box_b.x.start - box_a.x.start) as u32
            } else {
                (box_a.x.start - box_b.x.start) as u32
            };
            let hit = if a_first {
                rows_share_bit(row_a, row_b, d)
            } else {
                rows_share_bit(row_b, row_a, d)
            };

            if hit {
                proof {
                    if a_first {
                        let c = choose|c: int| c >= d && row_bit(row_a, c) && row_bit(row_b, c - d);
                        assert(d == bxb - bxa);
                        assert(self@.spec_pixel_at(bxa + c, y as int));
                        assert(other@.spec_pixel_at(bxa + c, y as int));
                    } else {
                        let c = choose|c: int| c >= d && row_bit(row_b, c) && row_bit(row_a, c - d);
                        assert(d == bxa - bxb);
                        assert(self@.spec_pixel_at(bxb + c, y as int));
                        assert(other@.spec_pixel_at(bxb + c, y as int));
                    }
                }
                return true;
            }

            proof {
                assert forall|px: int|
                    !(self@.spec_pixel_at(px, y as int) && other@.spec_pixel_at(px, y as int)) by {
                    if self@.spec_pixel_at(px, y as int) && other@.spec_pixel_at(px, y as int) {
                        if box_a.x.start < box_b.x.start {
                            assert(row_bit(row_a, px - bxa) && row_bit(row_b, px - bxb));
                        } else {
                            assert(row_bit(row_b, px - bxb) && row_bit(row_a, px - bxa));
                        }
                    }
                }
            }
            y = y + 1;
        }

        proof {
            assert forall|px: int, py: int|
                !(self@.spec_pixel_at(px, py) && other@.spec_pixel_at(px, py)) by {
                if self@.spec_pixel_at(px, py) && other@.spec_pixel_at(px, py) {
                    lemma_pixel_in_box(self@, px, py);
                    lemma_pixel_in_box(other@, px, py);
                    box_a.lemma_intersect_contains(box_b, px, py);
                }
            }
        }
        false
    }
}

/// Whether some opaque pixel of `a` and some opaque pixel of `b` share an
/// absolute position.
pub open spec fn spec_overlap(a: SpriteV, b: SpriteV) -> bool {
    exists|x: int, y: int| a.spec_pixel_at(x, y) && b.spec_pixel_at(x, y)
}

/// An opaque pixel of a well-formed sprite always lies inside the sprite's
/// bounding box.
pub proof fn lemma_pixel_in_box(s: SpriteV, x: int, y: int)
    requires
        s.wf(),
        s.spec_pixel_at(x, y),
    ensures
        s.spec_box_contains(x, y),
{
    let row = s.image.pixels@[y - s.spec_box_y_start()];
    let col = x - s.spec_box_x_start();
    assert(row_bit(row, col));
    if col >= s.image.width {
        assert(!row_bit(row, col));
    }
}

/// Pixel overlap is symmetric: whether two sprites collide does not depend
/// on the order they are asked in.
pub proof fn lemma_overlap_symmetric(a: SpriteV, b: SpriteV)
    ensures
        spec_overlap(a, b) == spec_overlap(b, a),
{
    if spec_overlap(a, b) {
        let (x, y) = choose|x: int, y: int| a.spec_pixel_at(x, y) && b.spec_pixel_at(x, y);
        assert(b.spec_pixel_at(x, y) && a.spec_pixel_at(x, y));
    }
    if spec_overlap(b, a) {
        let (x, y) = choose|x: int, y: int| b.spec_pixel_at(x, y) && a.spec_pixel_at(x, y);
        assert(a.spec_pixel_at(x, y) && b.spec_pixel_at(x, y));
    }
}

/// Two sprites whose bounding boxes share no point never collide, whatever
/// their pixel masks hold.
pub proof fn lemma_disjoint_boxes_no_collision(a: SpriteV, b: SpriteV)
    requires
        a.wf(),
        b.wf(),
        forall|x: int, y: int| !(a.spec_box_contains(x, y) && b.spec_box_contains(x, y)),
    ensures
        !spec_overlap(a, b),
{
    if spec_overlap(a, b) {
        let (x, y) = choose|x: int, y: int| a.spec_pixel_at(x, y) && b.spec_pixel_at(x, y);
        lemma_pixel_in_box(a, x, y);
        lemma_pixel_in_box(b, x, y);
    }
}

/// Whether the row `ra` and the row `rb` share an opaque bit once `ra` is
/// read `d` columns ahead of `rb`: column `c` of `ra` against column
/// `c - d` of `rb`, checked via a bitwise AND of the shifted rows.
fn rows_share_bit(ra: u32, rb: u32, d: u32) -> (r: bool)
    requires
        d < 32,
    ensures
        r == exists|c: int| c >= d && row_bit(ra, c) && row_bit(rb, c - d),
{
    let v: u32 = (ra >> d) & rb;
    if v != 0 {
        proof {
            let k = lemma_find_set_bit(v);
            assert(((rb >> k) & 1) == 1 && k + d < 32 && ((ra >> ((k + d) as u32)) & 1) == 1)
                by (bit_vector)
                requires
                    ((((ra >> d) & rb) >> k) & 1) == 1,
                    d < 32,
                    k < 32,
            ;
            assert(row_bit(ra, d + k) && row_bit(rb, (d + k) - d));
        }
        true
    } else {
        proof {
            assert forall|c: int| !(c >= d && row_bit(ra, c) && row_bit(rb, c - d)) by {
                if c >= d && row_bit(ra, c) && row_bit(rb, c - d) {
                    let cu = c as u32;
                    let ku = (c - d) as u32;
                    assert(!(((ra >> cu) & 1) == 1 && ((rb >> ku) & 1) == 1)) by (bit_vector)
                        requires
                            ((ra >> d) & rb) == 0,
                            d < 32,
                            cu < 32,
                            cu >= d,
                            ku == cu - d,
                    ;
                }
            }
        }
        false
    }
}

/// The visible part of one axis of a sprite projected onto a canvas: how
/// many image pixels to skip on that axis and the destination range on the
/// canvas.
struct Clip {
    image_offset: u16,
    position: Line,
}

impl Clip {
    /// Clips one translated axis range against a window: `None` when the
    /// range lies entirely off-window, otherwise the image offset to skip
    /// and the destination range clamped to the window.
    fn new(window_size: u16, range: Line) -> (r: Option<Clip>)
        requires
            range.start < range.end,
            range.end - range.start <= u16::MAX,
            -2_100_000_000 <= range.start,
            range.end <= 2_100_000_000,
        ensures
            r is Some <==> (range.end > 0 && range.start < window_size),
            r matches Some(c) ==> {
                &&& c.image_offset == if range.start < 0 {
                    -range.start
                } else {
                    0
                }
                &&& c.position.start == if range.start > 0 {
                    range.start
                } else {
                    0
                }
                &&& c.position.end == if range.end < window_size {
                    range.end as int
                } else {
                    window_size as int
                }
                &&& 0 <= c.position.start <= c.position.end <= window_size
            },
    {
        if range.end <= 0 || window_size as i32 <= range.start {
            return None;
        }

        let image_offset: i32 = if range.start < 0 {
            -range.start
        } else {
            0
        };
        let pos_start: i32 = if range.start > 0 {
            range.start
        } else {
            0
        };
        let pos_end: i32 = if range.end < window_size as i32 {
            range.end
        } else {
            window_size as i32
        };

        Some(
            Clip {
                image_offset: image_offset as u16,
                position: Line { start: pos_start, end: pos_end },
            },
        )
    }
}

/// A partial-image draw command: the visible, clipped part of a sprite in
/// destination-canvas coordinates, plus the image-space offset of its
/// top-left corner.
pub struct SpriteRect<'a> {
    pub image: &'a Image,
    pub image_offset_x: u16,
    pub image_offset_y: u16,
    pub rect: Rect,
}

impl<'a> SpriteRect<'a> {
    /// Well-formedness: a well-formed image, a destination rectangle inside
    /// the `u16` canvas range, row offsets that stay inside the image, and a
    /// column offset below the 32-bit row width.
    pub open spec fn wf(self) -> bool {
        &&& self.image.wf()
        &&& 0 <= self.rect.x.start <= self.rect.x.end <= u16::MAX
        &&& 0 <= self.rect.y.start <= self.rect.y.end <= u16::MAX
        &&& self.image_offset_y + (self.rect.y.end - self.rect.y.start)
            <= self.image.pixels@.len()
        &&& self.image_offset_x < 32
    }

    /// Whether the draw command lights the destination-canvas point
    /// `(x, y)`: the point lies in the destination rectangle and the image
    /// bit at the clip-offset source position is opaque.
    pub open spec fn spec_lit(self, x: int, y: int) -> bool {
        &&& self.rect.spec_contains(x, y)
        &&& row_bit(
            self.image.pixels@[self.image_offset_y + (y - self.rect.y.start)],
            self.image_offset_x + (x - self.rect.x.start),
        )
    }

    /// Runtime check of `wf`, for callers outside the proof world.
    pub fn wf_check(&self) -> (b: bool)
        ensures
            b == self.wf(),
    {
        if !self.image.wf_check() {
            return false;
        }
        if !(0 <= self.rect.x.start && self.rect.x.start <= self.rect.x.end && self.rect.x.end
            <= u16::MAX as i32) {
            return false;
        }
        if !(0 <= self.rect.y.start && self.rect.y.start <= self.rect.y.end && self.rect.y.end
            <= u16::MAX as i32) {
            return false;
        }
        if !(self.image_offset_y as usize + (self.rect.y.end - self.rect.y.start) as usize
            <= self.image.pixels.len()) {
            return false;
        }
        self.image_offset_x < 32
    }

    /// Lists exactly the destination-canvas pixels the command lights, in
    /// row-major order.
    pub fn set_pixels(&self) -> (r: Vec<Pos>)
        requires
            self.wf(),
        ensures
            forall|p: Pos| r@.contains(p) <==> self.spec_lit(p.x as int, p.y as int),
    {
        let mut out: Vec<Pos> = Vec::new();
        let mut y: i32 = self.rect.y.start;
        while y < self.rect.y.end
            invariant
                self.wf(),
                self.rect.y.start <= y <= self.rect.y.end,
                forall|p: Pos|
                    out@.contains(p) <==> (self.spec_lit(p.x as int, p.y as int) && p.y < y),
            decreases self.rect.y.end - y,
        {
            let row: u32 = self.image.pixels[(self.image_offset_y as usize) + ((y
                - self.rect.y.start) as usize)];
            let mut x: i32 = self.rect.x.start;
            while x < self.rect.x.end
                invariant
                    self.wf(),
                    self.rect.y.start <= y < self.rect.y.end,
                    self.rect.x.start <= x <= self.rect.x.end,
                    row == self.image.pixels@[self.image_offset_y + (y - self.rect.y.start)],
                    forall|p: Pos|
                        out@.contains(p) <==> (self.spec_lit(p.x as int, p.y as int) && (p.y < y
                            || (p.y == y && p.x < x))),
                decreases self.rect.x.end - x,
            {
                let col: u32 = self.image_offset_x as u32 + (x - self.rect.x.start) as u32;
                if col < 32 && ((row >> col) & 1) == 1 {
                    let p = Pos { x, y };
                    let ghost old_out = out@;
                    out.push(p);
                    proof {
                        assert forall|q: Pos|
                            out@.contains(q) <==> (self.spec_lit(q.x as int, q.y as int) && (q.y
                                < y || (q.y == y && q.x <= x))) by {
                            if out@.contains(q) {
                                let i = choose|i: int| 0 <= i < out@.len() && out@[i] == q;
                                if i < old_out.len() {
                                    assert(old_out.contains(q));
                                }
                            }
                            if old_out.contains(q) {
                                let i = choose|i: int|
                                    0 <= i < old_out.len() && old_out[i] == q;
                                assert(out@[i] == q);
                            }
                            if q == p {
                                assert(out@[out@.len() - 1] == q);
                            }
                        }
                    }
                } else {
                    proof {
                        assert(!self.spec_lit(x as int, y as int));
                    }
                }
                x = x + 1;
            }
            y = y + 1;
        }
        out
    }
}

impl Image {
    /// Runtime check of `wf`, for callers outside the proof world.
    pub fn wf_check(&self) -> (b: bool)
        ensures
            b == self.wf(),
    {
        if self.width > 32 {
            return false;
        }
        if self.pixels.len() > u16::MAX as usize {
            return false;
        }
        if self.width == 32 {
            return true;
        }
        let mut i: usize = 0;
        let mut ok = true;
        while i < self.pixels.len()
            invariant
                self.width < 32,
                i <= self.pixels@.len(),
                ok <==> forall|j: int, c: int|
                    #![trigger row_bit(self.pixels@[j], c)]
                    0 <= j < i && self.width <= c ==> !row_bit(self.pixels@[j], c),
            decreases self.pixels@.len() - i,
        {
            let row = self.pixels[i];
            let row_ok = (row >> (self.width as u32)) == 0;
            proof {
                lemma_row_wf_equiv(row, self.width);
            }
            ok = ok && row_ok;
            i = i + 1;
        }
        ok
    }
}

impl SpriteV {
    /// Viewport x-extent of the sprite once translated by `origin`.
    pub open spec fn spec_view_x_start(self, origin: Pos) -> int {
        self.spec_box_x_start() + origin.x
    }

    pub open spec fn spec_view_x_end(self, origin: Pos) -> int {
        self.spec_box_x_end() + origin.x
    }

    /// Viewport y-extent of the sprite: translated by `origin` and flipped
    /// around the anchor by doubling its y, matching the renderer's pixel
    /// aspect.
    pub open spec fn spec_view_y_start(self, origin: Pos) -> int {
        self.spec_box_y_start() + origin.y - 2 * self.position.y
    }

    pub open spec fn spec_view_y_end(self, origin: Pos) -> int {
        self.spec_box_y_end() + origin.y - 2 * self.position.y
    }
}

/// Whether the sprite's viewport projection under `origin` reaches a
/// canvas of `canvas_size` at all.
pub open spec fn spec_rect_visible(s: SpriteV, origin: Pos, canvas_size: Size) -> bool {
    &&& s.spec_view_x_end(origin) > 0
    &&& s.spec_view_x_start(origin) < canvas_size.width
    &&& s.spec_view_y_end(origin) > 0
    &&& s.spec_view_y_start(origin) < canvas_size.height
}

/// Whether `sr` is exactly the clipped draw command of the sprite `s`
/// projected by `origin` onto a canvas of `canvas_size`: the same image,
/// the image offsets that skip the off-canvas part, and the destination
/// rectangle clamped to the canvas.
pub open spec fn spec_is_rect_of<'a>(
    sr: SpriteRect<'a>,
    s: SpriteV,
    origin: Pos,
    canvas_size: Size,
) -> bool {
    let xs = s.spec_view_x_start(origin);
    let xe = s.spec_view_x_end(origin);
    let ys = s.spec_view_y_start(origin);
    let ye = s.spec_view_y_end(origin);
    &&& *sr.image == s.image
    &&& sr.image_offset_x == if xs < 0 {
        -xs
    } else {
        0
    }
    &&& sr.image_offset_y == if ys < 0 {
        -ys
    } else {
        0
    }
    &&& sr.rect.x.start == if xs > 0 {
        xs
    } else {
        0
    }
    &&& sr.rect.x.end == if xe < canvas_size.width {
        xe
    } else {
        canvas_size.width as int
    }
    &&& sr.rect.y.start == if ys > 0 {
        ys
    } else {
        0
    }
    &&& sr.rect.y.end == if ye < canvas_size.height {
        ye
    } else {
        canvas_size.height as int
    }
}

impl<'a> Sprite<'a> {
    /// Projects the sprite into viewport coordinates and clips it against
    /// the canvas bounds on both axes, yielding a partial-image draw
    /// command; `None` when the sprite lies entirely off-canvas.
    pub fn rect(&self, origin: Pos, canvas_size: Size) -> (r: Option<SpriteRect<'a>>)
        requires
            self.wf(),
            self.image.width > 0,
            self.image.pixels@.len() > 0,
            spec_coord_bounded(origin.x as int),
            spec_coord_bounded(origin.y as int),
        ensures
            r is Some <==> spec_rect_visible(self@, origin, canvas_size),
            r matches Some(sr) ==> spec_is_rect_of(sr, self@, origin, canvas_size) && sr.wf(),
    {
        let rect = self.bounding_box();

        let x_clip = match Clip::new(canvas_size.width, rect.x.translate(origin.x)) {
            Some(c) => c,
            None => {
                return None;
            },
        };
        let y_shift: i32 = origin.y - self.position.y * 2;
        let y_clip = match Clip::new(canvas_size.height, rect.y.translate(y_shift)) {
            Some(c) => c,
            None => {
                return None;
            },
        };

        Some(
            SpriteRect {
                image: self.image,
                image_offset_x: x_clip.image_offset,
                image_offset_y: y_clip.image_offset,
                rect: Rect { x: x_clip.position, y: y_clip.position },
            },
        )
    }
}

/// For a width below 32, a row has no opaque bit at or beyond the width
/// exactly when shifting the width out leaves zero.
pub(crate) proof fn lemma_row_wf_equiv(row: u32, w: u16)
    requires
        w < 32,
    ensures
        ((row >> (w as u32)) == 0) <==> (forall|c: int| w <= c ==> !row_bit(row, c)),
{
    let wu = w as u32;
    if (row >> wu) == 0 {
        assert forall|c: int| w <= c implies !row_bit(row, c) by {
            if c < 32 {
                let cu = c as u32;
                assert(((row >> cu) & 1) != 1) by (bit_vector)
                    requires
                        (row >> wu) == 0,
                        wu <= cu < 32,
                ;
            }
        }
    } else {
        let k = lemma_find_set_bit(row >> wu);
        assert(wu + k < 32 && ((row >> ((wu + k) as u32)) & 1) == 1) by (bit_vector)
            requires
                (((row >> wu) >> k) & 1) == 1,
                wu < 32,
                k < 32,
        ;
        assert(row_bit(row, wu + k));
        assert(!(forall|c: int| w <= c ==> !row_bit(row, c)));
    }
}

/// The index of some set bit of a nonzero 32-bit word.
proof fn lemma_find_set_bit(v: u32) -> (k: u32)
    requires
        v != 0,
    ensures
        k < 32,
        ((v >> k) & 1) == 1,
    decreases v,
{
    if v & 1 == 1 {
        assert(((v >> 0u32) & 1) == 1) by (bit_vector)
            requires
                v & 1 == 1,
        ;
        0u32
    } else {
        assert((v >> 1u32) != 0 && (v >> 1u32) < v) by (bit_vector)
            requires
                v != 0,
                v & 1 != 1,
        ;
        let k1 = lemma_find_set_bit(v >> 1u32);
        assert(k1 < 31 && ((v >> ((k1 + 1) as u32)) & 1) == 1) by (bit_vector)
            requires
                (((v >> 1u32) >> k1) & 1) == 1,
                k1 < 32,
        ;
        (k1 + 1) as u32
    }
}

} // verus!
