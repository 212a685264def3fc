//! Stitching math for scrolling capture.
//!
//! Everything works on "normalized" frames: `normalize` rotates/flips each
//! frame so the scroll direction becomes "down", stitching always appends rows
//! at the bottom, and `denormalize` undoes the transform on the final image.

use vstd::prelude::*;

pub use super::ScrollDirection;

verus! {

/// One RGBA pixel.
#[derive(Debug, Clone, Copy, PartialEq, Eq, Structural)]
pub struct Rgba {
    pub r: u8,
    pub g: u8,
    pub b: u8,
    pub a: u8,
}

impl Rgba {
    pub fn new(r: u8, g: u8, b: u8, a: u8) -> (p: Rgba)
        ensures
            p == (Rgba { r, g, b, a }),
    {
        Rgba { r, g, b, a }
    }

    /// Fully transparent black, the colour of a freshly allocated frame.
    pub open spec fn zero() -> Rgba {
        Rgba { r: 0, g: 0, b: 0, a: 0 }
    }
}

/// Mathematical model of a frame: its size and its rows of pixels.
pub struct FrameModel {
    pub width: nat,
    pub height: nat,
    pub pixels: Seq<Seq<Rgba>>,
}

impl FrameModel {
    /// Every row exists and has exactly `width` pixels.
    pub open spec fn wf(self) -> bool {
        &&& self.pixels.len() == self.height
        &&& forall|y: int| 0 <= y < self.height ==> (#[trigger] self.pixels[y]).len() == self.width
    }

    /// The pixel in column `x`, row `y`.
    pub open spec fn px(self, x: int, y: int) -> Rgba {
        self.pixels[y][x]
    }

    pub open spec fn from_fn(width: nat, height: nat, f: spec_fn(int, int) -> Rgba) -> FrameModel {
        FrameModel {
            width,
            height,
            pixels: Seq::new(height, |y: int| Seq::new(width, |x: int| f(x, y))),
        }
    }

    pub open spec fn blank(width: nat, height: nat) -> FrameModel {
        FrameModel::from_fn(width, height, |x: int, y: int| Rgba::zero())
    }

    /// Mirror top to bottom.
    pub open spec fn flip_vertical(self) -> FrameModel {
        FrameModel::from_fn(self.width, self.height, |x: int, y: int| self.px(x, self.height - 1 - y))
    }

    /// Rotate a quarter turn clockwise: source pixel (x, y) lands at (height - 1 - y, x).
    pub open spec fn rotate90(self) -> FrameModel {
        FrameModel::from_fn(self.height, self.width, |x: int, y: int| self.px(y, self.height - 1 - x))
    }

    /// Rotate three quarter turns clockwise: source pixel (x, y) lands at (y, width - 1 - x).
    pub open spec fn rotate270(self) -> FrameModel {
        FrameModel::from_fn(self.height, self.width, |x: int, y: int| self.px(self.width - 1 - y, x))
    }

    /// The `w` x `h` region whose top-left corner is (x0, y0).
    pub open spec fn region(self, x0: int, y0: int, w: nat, h: nat) -> FrameModel {
        FrameModel::from_fn(w, h, |x: int, y: int| self.px(x0 + x, y0 + y))
    }

    pub open spec fn same(self, other: FrameModel) -> bool {
        &&& self.width == other.width
        &&& self.height == other.height
        &&& forall|x: int, y: int|
            0 <= x < self.width && 0 <= y < self.height ==> #[trigger] self.px(x, y) == other.px(x, y)
    }
}

/// Frame transform that makes the scroll direction "down".
pub open spec fn normalized(m: FrameModel, dir: ScrollDirection) -> FrameModel {
    match dir {
        ScrollDirection::Down => m,
        ScrollDirection::Up => m.flip_vertical(),
        ScrollDirection::Right => m.rotate90(),
        ScrollDirection::Left => m.rotate270(),
    }
}

/// Inverse of `normalized`.
pub open spec fn denormalized(m: FrameModel, dir: ScrollDirection) -> FrameModel {
    match dir {
        ScrollDirection::Down => m,
        ScrollDirection::Up => m.flip_vertical(),
        ScrollDirection::Right => m.rotate270(),
        ScrollDirection::Left => m.rotate90(),
    }
}

/// An RGBA image stored row by row.
#[derive(Debug, Clone, PartialEq, Eq)]
pub struct Frame {
    width: u32,
    height: u32,
    rows: Vec<Vec<Rgba>>,
}

impl View for Frame {
    type V = FrameModel;

    closed spec fn view(&self) -> FrameModel {
        FrameModel {
            width: self.width as nat,
            height: self.height as nat,
            pixels: Seq::new(self.rows@.len(), |y: int| self.rows@[y]@),
        }
    }
}

impl Frame {
    pub open spec fn wf(&self) -> bool {
        self@.wf()
    }

    proof fn lemma_view(&self)
        ensures
            self@.width == self.width,
            self@.height == self.height,
            self@.pixels.len() == self.rows@.len(),
            forall|y: int| 0 <= y < self.rows@.len() ==> #[trigger] self@.pixels[y] == self.rows@[y]@,
    {
    }

    /// A `width` x `height` frame of transparent black pixels.
    pub fn new(width: u32, height: u32) -> (f: Frame)
        ensures
            f.wf(),
            f@ == FrameModel::blank(width as nat, height as nat),
    {
        let mut rows: Vec<Vec<Rgba>> = Vec::new();
        let mut y: u32 = 0;
        while y < height
            invariant
                y <= height,
                rows@.len() == y,
                forall|j: int| 0 <= j < y ==> (#[trigger] rows@[j])@.len() == width,
                forall|i: int, j: int| 0 <= j < y && 0 <= i < width ==> #[trigger] rows@[j]@[i] == Rgba::zero(),
            decreases height - y,
        {
            let mut row: Vec<Rgba> = Vec::new();
            let mut x: u32 = 0;
            while x < width
                invariant
                    x <= width,
                    row@.len() == x,
                    forall|i: int| 0 <= i < x ==> #[trigger] row@[i] == Rgba::zero(),
                decreases width - x,
            {
                row.push(Rgba { r: 0, g: 0, b: 0, a: 0 });
                x = x + 1;
            }
            rows.push(row);
            y = y + 1;
        }
        let f = Frame { width, height, rows };
        proof {
            f.lemma_view();
            lemma_from_fn_wf(width as nat, height as nat, |x: int, y: int| Rgba::zero());
            assert forall|y: int| 0 <= y < f@.height implies (#[trigger] f@.pixels[y]).len() == f@.width by {
                assert(rows@[y]@.len() == width);
            }
            lemma_same_is_equal(f@, FrameModel::blank(width as nat, height as nat));
        }
        f
    }

    pub fn width(&self) -> (w: u32)
        ensures
            w == self@.width,
    {
        proof {
            self.lemma_view();
        }
        self.width
    }

    pub fn height(&self) -> (h: u32)
        ensures
            h == self@.height,
    {
        proof {
            self.lemma_view();
        }
        self.height
    }

    pub fn dimensions(&self) -> (d: (u32, u32))
        ensures
            d.0 == self@.width,
            d.1 == self@.height,
    {
        proof {
            self.lemma_view();
        }
        (self.width, self.height)
    }

    pub fn get_pixel(&self, x: u32, y: u32) -> (p: Rgba)
        requires
            self.wf(),
            x < self@.width,
            y < self@.height,
        ensures
            p == self@.px(x as int, y as int),
    {
        proof {
            self.lemma_view();
            assert(self@.pixels[y as int].len() == self@.width);
        }
        self.rows[y as usize][x as usize]
    }

    pub fn put_pixel(&mut self, x: u32, y: u32, p: Rgba)
        requires
            old(self).wf(),
            x < old(self)@.width,
            y < old(self)@.height,
        ensures
            final(self).wf(),
            final(self)@.width == old(self)@.width,
            final(self)@.height == old(self)@.height,
            final(self)@.px(x as int, y as int) == p,
            forall|i: int, j: int|
                0 <= i < old(self)@.width && 0 <= j < old(self)@.height && (i != x || j != y)
                    ==> #[trigger] final(self)@.px(i, j) == old(self)@.px(i, j),
    {
        proof {
            self.lemma_view();
            assert(self@.pixels[y as int].len() == self@.width);
        }
        let yy = y as usize;
        let mut row: Vec<Rgba> = Vec::new();
        std::mem::swap(&mut row, &mut self.rows[yy]);
        row.set(x as usize, p);
        self.rows.set(yy, row);
        proof {
            self.lemma_view();
            old(self).lemma_view();
            assert forall|j: int| 0 <= j < self@.height implies (#[trigger] self@.pixels[j]).len()
                == self@.width by {
                old(self).lemma_view();
                assert(old(self)@.pixels[j].len() == old(self)@.width);
            }
        }
    }
}

/// Two well-formed models with the same size and pixels are equal.
pub proof fn lemma_same_is_equal(a: FrameModel, b: FrameModel)
    requires
        a.wf(),
        b.wf(),
        a.same(b),
    ensures
        a == b,
{
    assert forall|y: int| 0 <= y < a.height implies #[trigger] a.pixels[y] =~= b.pixels[y] by {
        assert forall|x: int| 0 <= x < a.width implies #[trigger] a.pixels[y][x] == b.pixels[y][x] by {
            assert(a.px(x, y) == b.px(x, y));
        }
    }
    assert(a.pixels =~= b.pixels);
}

/// `from_fn` always builds a well-formed model.
pub proof fn lemma_from_fn_wf(width: nat, height: nat, f: spec_fn(int, int) -> Rgba)
    ensures
        FrameModel::from_fn(width, height, f).wf(),
        forall|x: int, y: int|
            0 <= x < width && 0 <= y < height ==> #[trigger] FrameModel::from_fn(width, height, f).px(x, y)
                == f(x, y),
{
}

impl Frame {
    /// Builds a frame whose pixel (x, y) is `src.px(fx, fy)` for the given
    /// index maps; the shared engine of every transform below.
    fn remap(&self, out_w: u32, out_h: u32, kind: u8) -> (out: Frame)
        requires
            self.wf(),
            kind < 4,
            kind == 0 ==> out_w == self@.width && out_h == self@.height,
            kind == 1 ==> out_w == self@.width && out_h == self@.height,
            kind == 2 ==> out_w == self@.height && out_h == self@.width,
            kind == 3 ==> out_w == self@.height && out_h == self@.width,
        ensures
            out.wf(),
            out@.width == out_w,
            out@.height == out_h,
            forall|x: int, y: int|
                0 <= x < out_w && 0 <= y < out_h ==> #[trigger] out@.px(x, y) == remap_source(
                    self@,
                    kind,
                    x,
                    y,
                ),
    {
        let w = self.width();
        let h = self.height();
        let mut rows: Vec<Vec<Rgba>> = Vec::new();
        let mut y: u32 = 0;
        while y < out_h
            invariant
                self.wf(),
                w == self@.width,
                h == self@.height,
                kind < 4,
                kind == 0 ==> out_w == w && out_h == h,
                kind == 1 ==> out_w == w && out_h == h,
                kind == 2 ==> out_w == h && out_h == w,
                kind == 3 ==> out_w == h && out_h == w,
                y <= out_h,
                rows@.len() == y,
                forall|j: int| 0 <= j < y ==> (#[trigger] rows@[j])@.len() == out_w,
                forall|i: int, j: int|
                    0 <= j < y && 0 <= i < out_w ==> #[trigger] rows@[j]@[i] == remap_source(
                        self@,
                        kind,
                        i,
                        j,
                    ),
            decreases out_h - y,
        {
            let mut row: Vec<Rgba> = Vec::new();
            let mut x: u32 = 0;
            while x < out_w
                invariant
                    self.wf(),
                    w == self@.width,
                    h == self@.height,
                    kind < 4,
                    kind == 0 ==> out_w == w && out_h == h,
                    kind == 1 ==> out_w == w && out_h == h,
                    kind == 2 ==> out_w == h && out_h == w,
                    kind == 3 ==> out_w == h && out_h == w,
                    y < out_h,
                    x <= out_w,
                    row@.len() == x,
                    forall|i: int| 0 <= i < x ==> #[trigger] row@[i] == remap_source(self@, kind, i, y as int),
                decreases out_w - x,
            {
                let p = if kind == 0 {
                    self.get_pixel(x, y)
                } else if kind == 1 {
                    self.get_pixel(x, h - 1 - y)
                } else if kind == 2 {
                    self.get_pixel(y, h - 1 - x)
                } else {
                    self.get_pixel(w - 1 - y, x)
                };
                row.push(p);
                x = x + 1;
            }
            rows.push(row);
            y = y + 1;
        }
        let out = Frame { width: out_w, height: out_h, rows };
        proof {
            out.lemma_view();
        }
        out
    }

    /// Mirror top to bottom.
    pub fn flip_vertical(&self) -> (out: Frame)
        requires
            self.wf(),
        ensures
            out.wf(),
            out@ == self@.flip_vertical(),
    {
        let out = self.remap(self.width(), self.height(), 1);
        proof {
            lemma_from_fn_wf(self@.width, self@.height, |x: int, y: int| self@.px(x, self@.height - 1 - y));
            lemma_same_is_equal(out@, self@.flip_vertical());
        }
        out
    }

    /// Rotate a quarter turn clockwise.
    pub fn rotate90(&self) -> (out: Frame)
        requires
            self.wf(),
        ensures
            out.wf(),
            out@ == self@.rotate90(),
    {
        let out = self.remap(self.height(), self.width(), 2);
        proof {
            lemma_from_fn_wf(self@.height, self@.width, |x: int, y: int| self@.px(y, self@.height - 1 - x));
            lemma_same_is_equal(out@, self@.rotate90());
        }
        out
    }

    /// Rotate three quarter turns clockwise.
    pub fn rotate270(&self) -> (out: Frame)
        requires
            self.wf(),
        ensures
            out.wf(),
            out@ == self@.rotate270(),
    {
        let out = self.remap(self.height(), self.width(), 3);
        proof {
            lemma_from_fn_wf(self@.height, self@.width, |x: int, y: int| self@.px(self@.width - 1 - y, x));
            lemma_same_is_equal(out@, self@.rotate270());
        }
        out
    }

    /// A pixel-for-pixel copy.
    pub fn copy(&self) -> (out: Frame)
        requires
            self.wf(),
        ensures
            out.wf(),
            out@ == self@,
    {
        let out = self.remap(self.width(), self.height(), 0);
        proof {
            lemma_same_is_equal(out@, self@);
        }
        out
    }
}

/// Where pixel (x, y) of a transformed frame comes from, per transform kind:
/// 0 copy, 1 vertical flip, 2 quarter turn, 3 three-quarter turn.
pub open spec fn remap_source(m: FrameModel, kind: u8, x: int, y: int) -> Rgba {
    if kind == 0 {
        m.px(x, y)
    } else if kind == 1 {
        m.px(x, m.height - 1 - y)
    } else if kind == 2 {
        m.px(y, m.height - 1 - x)
    } else {
        m.px(m.width - 1 - y, x)
    }
}

/// Rotate/flip `frame` so that scrolling in `dir` becomes scrolling down.
pub fn normalize(frame: &Frame, dir: ScrollDirection) -> (out: Frame)
    requires
        frame.wf(),
    ensures
        out.wf(),
        out@ == normalized(frame@, dir),
{
    match dir {
        ScrollDirection::Down => frame.copy(),
        ScrollDirection::Up => frame.flip_vertical(),
        ScrollDirection::Right => frame.rotate90(),
        ScrollDirection::Left => frame.rotate270(),
    }
}

/// Undo `normalize` on the stitched composite.
pub fn denormalize(composite: Frame, dir: ScrollDirection) -> (out: Frame)
    requires
        composite.wf(),
    ensures
        out.wf(),
        out@ == denormalized(composite@, dir),
{
    match dir {
        ScrollDirection::Down => composite,
        ScrollDirection::Up => composite.flip_vertical(),
        ScrollDirection::Right => composite.rotate270(),
        ScrollDirection::Left => composite.rotate90(),
    }
}

/// Denormalizing a normalized frame gives the frame back, for every direction.
pub proof fn lemma_normalize_round_trip(m: FrameModel, dir: ScrollDirection)
    requires
        m.wf(),
    ensures
        denormalized(normalized(m, dir), dir) == m,
{
    let n = normalized(m, dir);
    let back = denormalized(n, dir);
    match dir {
        ScrollDirection::Down => {},
        ScrollDirection::Up => {
            lemma_from_fn_wf(m.width, m.height, |x: int, y: int| m.px(x, m.height - 1 - y));
            lemma_from_fn_wf(n.width, n.height, |x: int, y: int| n.px(x, n.height - 1 - y));
            lemma_same_is_equal(back, m);
        },
        ScrollDirection::Right => {
            lemma_from_fn_wf(m.height, m.width, |x: int, y: int| m.px(y, m.height - 1 - x));
            lemma_from_fn_wf(n.height, n.width, |x: int, y: int| n.px(n.width - 1 - y, x));
            lemma_same_is_equal(back, m);
        },
        ScrollDirection::Left => {
            lemma_from_fn_wf(m.height, m.width, |x: int, y: int| m.px(m.width - 1 - y, x));
            lemma_from_fn_wf(n.height, n.width, |x: int, y: int| n.px(y, n.height - 1 - x));
            lemma_same_is_equal(back, m);
        },
    }
}

pub open spec fn min_nat(a: nat, b: nat) -> nat {
    if a <= b {
        a
    } else {
        b
    }
}

/// The rows `append_rows` adds: how many of `next`'s bottom rows are taken.
pub open spec fn appended_rows(next: FrameModel, new_rows: nat) -> nat {
    min_nat(new_rows, next.height)
}

/// The composite grown by the `new_rows` bottom rows of `next`, clipped to
/// the composite's width; columns that `next` does not cover stay transparent.
pub open spec fn appended(comp: FrameModel, next: FrameModel, new_rows: nat) -> FrameModel {
    let n = appended_rows(next, new_rows);
    let sw = min_nat(next.width, comp.width);
    FrameModel::from_fn(
        comp.width,
        comp.height + n,
        |x: int, y: int|
            if y < comp.height {
                comp.px(x, y)
            } else if x < sw {
                next.px(x, next.height - n + (y - comp.height))
            } else {
                Rgba::zero()
            },
    )
}

/// Stitching only adds: the composite keeps its width and every row it
/// had, and grows by the rows taken from the new frame.
pub proof fn lemma_append_keeps_rows(comp: FrameModel, next: FrameModel, new_rows: nat)
    requires
        comp.wf(),
    ensures
        appended(comp, next, new_rows).wf(),
        appended(comp, next, new_rows).width == comp.width,
        appended(comp, next, new_rows).height == comp.height + min_nat(new_rows, next.height),
        forall|x: int, y: int|
            0 <= x < comp.width && 0 <= y < comp.height ==> #[trigger] appended(comp, next, new_rows).px(x, y)
                == comp.px(x, y),
{
    let n = appended_rows(next, new_rows);
    let sw = min_nat(next.width, comp.width);
    lemma_from_fn_wf(
        comp.width,
        comp.height + n,
        |x: int, y: int|
            if y < comp.height {
                comp.px(x, y)
            } else if x < sw {
                next.px(x, next.height - n + (y - comp.height))
            } else {
                Rgba::zero()
            },
    );
}

impl Frame {
    /// The `w` x `h` part of the frame whose top-left corner is (x0, y0).
    pub fn sub_image(&self, x0: u32, y0: u32, w: u32, h: u32) -> (out: Frame)
        requires
            self.wf(),
            x0 + w <= self@.width,
            y0 + h <= self@.height,
        ensures
            out.wf(),
            out@ == self@.region(x0 as int, y0 as int, w as nat, h as nat),
    {
        let mut rows: Vec<Vec<Rgba>> = Vec::new();
        let mut y: u32 = 0;
        while y < h
            invariant
                self.wf(),
                x0 + w <= self@.width,
                y0 + h <= self@.height,
                y <= h,
                rows@.len() == y,
                forall|j: int| 0 <= j < y ==> (#[trigger] rows@[j])@.len() == w,
                forall|i: int, j: int|
                    0 <= j < y && 0 <= i < w ==> #[trigger] rows@[j]@[i] == self@.px(x0 + i, y0 + j),
            decreases h - y,
        {
            let mut row: Vec<Rgba> = Vec::new();
            let mut x: u32 = 0;
            while x < w
                invariant
                    self.wf(),
                    x0 + w <= self@.width,
                    y0 + h <= self@.height,
                    y < h,
                    x <= w,
                    row@.len() == x,
                    forall|i: int| 0 <= i < x ==> #[trigger] row@[i] == self@.px(x0 + i, y0 + y),
                decreases w + 4 - x,
            {
                row.push(self.get_pixel(x0 + x, y0 + y));
                x = x + 1;
            }
            rows.push(row);
            y = y + 1;
        }
        let out = Frame { width: w, height: h, rows };
        proof {
            out.lemma_view();
            lemma_from_fn_wf(w as nat, h as nat, |x: int, y: int| self@.px(x0 + x, y0 + y));
            lemma_same_is_equal(out@, self@.region(x0 as int, y0 as int, w as nat, h as nat));
        }
        out
    }
}

/// Grow the composite by the `new_rows` bottom rows of `next`.
pub fn append_rows(composite: Frame, next: &Frame, new_rows: u32) -> (out: Frame)
    requires
        composite.wf(),
        next.wf(),
        composite@.height + appended_rows(next@, new_rows as nat) <= u32::MAX,
    ensures
        out.wf(),
        out@ == appended(composite@, next@, new_rows as nat),
{
    let (w, composite_h) = composite.dimensions();
    let (next_w, next_h) = next.dimensions();
    let new_rows = if new_rows < next_h {
        new_rows
    } else {
        next_h
    };
    let strip_w = if next_w < w {
        next_w
    } else {
        w
    };
    let ghost comp = composite@;
    proof {
        composite.lemma_view();
    }
    let mut rows = composite.rows;
    proof {
        assert forall|j: int| 0 <= j < composite_h implies (#[trigger] rows@[j])@.len() == w by {
            assert(comp.pixels[j] == rows@[j]@);
            assert(comp.pixels[j].len() == comp.width);
        }
    }
    let mut k: u32 = 0;
    while k < new_rows
        invariant
            next.wf(),
            comp.wf(),
            comp.width == w,
            comp.height == composite_h,
            next_w == next@.width,
            next_h == next@.height,
            new_rows <= next_h,
            strip_w <= next_w,
            strip_w <= w,
            k <= new_rows,
            rows@.len() == composite_h + k,
            forall|j: int| 0 <= j < composite_h ==> #[trigger] rows@[j]@ == comp.pixels[j],
            forall|j: int| 0 <= j < composite_h + k ==> (#[trigger] rows@[j])@.len() == w,
            forall|i: int, j: int|
                composite_h <= j < composite_h + k && 0 <= i < w ==> #[trigger] rows@[j]@[i] == (
                if i < strip_w {
                    next@.px(i, next_h - new_rows + (j - composite_h))
                } else {
                    Rgba::zero()
                }),
        decreases new_rows - k,
    {
        let src_y = next_h - new_rows + k;
        let mut row: Vec<Rgba> = Vec::new();
        let mut x: u32 = 0;
        while x < w
            invariant
                next.wf(),
                next_w == next@.width,
                next_h == next@.height,
                new_rows <= next_h,
                k < new_rows,
                src_y == next_h - new_rows + k,
                strip_w <= next_w,
                strip_w <= w,
                x <= w,
                row@.len() == x,
                forall|i: int| 0 <= i < x ==> #[trigger] row@[i] == (if i < strip_w {
                    next@.px(i, src_y as int)
                } else {
                    Rgba::zero()
                }),
            decreases w + 4 - x,
        {
            if x < strip_w {
                row.push(next.get_pixel(x, src_y));
            } else {
                row.push(Rgba { r: 0, g: 0, b: 0, a: 0 });
            }
            x = x + 1;
        }
        rows.push(row);
        k = k + 1;
    }
    let out = Frame { width: w, height: composite_h + new_rows, rows };
    proof {
        out.lemma_view();
        let target = appended(comp, next@, new_rows as nat);
        assert(new_rows == appended_rows(next@, new_rows as nat));
        assert forall|x: int, y: int| 0 <= x < out@.width && 0 <= y < out@.height implies #[trigger] out@.px(x, y)
            == target.px(x, y) by {
            if y < composite_h {
                assert(rows@[y]@ == comp.pixels[y]);
            }
        }
        assert forall|y: int| 0 <= y < out@.height implies (#[trigger] out@.pixels[y]).len() == out@.width by {
            assert(rows@[y]@.len() == w);
        }
        lemma_same_is_equal(out@, target);
    }
    out
}

/// Absolute difference of two channel values.
pub open spec fn abs_diff(a: u8, b: u8) -> nat {
    if a >= b {
        (a - b) as nat
    } else {
        (b - a) as nat
    }
}

/// Sum of the absolute R, G and B differences of two pixels (alpha ignored).
pub open spec fn rgb_diff(p: Rgba, q: Rgba) -> nat {
    abs_diff(p.r, q.r) + abs_diff(p.g, q.g) + abs_diff(p.b, q.b)
}

/// How many of the coordinates 0, 4, 8, ... lie below `n`.
pub open spec fn sample_count(n: nat) -> nat {
    ((n + 3) / 4) as nat
}

/// Sum of `rgb_diff` over the first `n` sampled columns of row `y` of `next`
/// against row `y + offset` of `prev`.
pub open spec fn row_diff(prev: FrameModel, next: FrameModel, offset: int, y: int, n: nat) -> nat
    decreases n,
{
    if n == 0 {
        0
    } else {
        row_diff(prev, next, offset, y, (n - 1) as nat) + rgb_diff(
            prev.px(4 * (n - 1), y + offset),
            next.px(4 * (n - 1), y),
        )
    }
}

/// Sum of `row_diff` over the first `m` sampled rows of the strip of `next`
/// that starts at row `s`.
pub open spec fn strip_diff(prev: FrameModel, next: FrameModel, s: int, offset: int, m: nat) -> nat
    decreases m,
{
    if m == 0 {
        0
    } else {
        strip_diff(prev, next, s, offset, (m - 1) as nat) + row_diff(
            prev,
            next,
            offset,
            s + 4 * (m - 1),
            sample_count(prev.width),
        )
    }
}

/// Total channel difference between the 32-row strip of `next` starting at
/// row `s` (every fourth row and column) and the rows of `prev` `offset`
/// further down.
pub open spec fn offset_diff(prev: FrameModel, next: FrameModel, s: int, offset: int) -> nat {
    strip_diff(prev, next, s, offset, 8)
}

/// Number of channel samples in one strip comparison.
pub open spec fn offset_samples(width: nat) -> nat {
    24 * sample_count(width)
}

/// The offset search only runs on equally sized, non-empty frames taller than the strip.
pub open spec fn offset_search_applies(prev: FrameModel, next: FrameModel) -> bool {
    &&& prev.width == next.width
    &&& prev.height == next.height
    &&& prev.height > 32
    &&& prev.width > 0
}

/// One colour channel of a pixel: 0 red, 1 green, 2 blue.
pub open spec fn channel(p: Rgba, c: int) -> nat {
    if c == 0 {
        p.r as nat
    } else if c == 1 {
        p.g as nat
    } else {
        p.b as nat
    }
}

/// Sum of channel `c` over the first `n` sampled columns of row `y`.
pub open spec fn row_channel_sum(img: FrameModel, y: int, n: nat, c: int) -> nat
    decreases n,
{
    if n == 0 {
        0
    } else {
        row_channel_sum(img, y, (n - 1) as nat, c) + channel(img.px(4 * (n - 1), y), c)
    }
}

/// Sum of the squares of channel `c` over the first `n` sampled columns of row `y`.
pub open spec fn row_channel_sq(img: FrameModel, y: int, n: nat, c: int) -> nat
    decreases n,
{
    if n == 0 {
        0
    } else {
        row_channel_sq(img, y, (n - 1) as nat, c) + channel(img.px(4 * (n - 1), y), c) * channel(
            img.px(4 * (n - 1), y),
            c,
        )
    }
}

/// Sum of channel `c` over the first `m` sampled rows of the strip at `s`.
pub open spec fn strip_channel_sum(img: FrameModel, s: int, m: nat, c: int) -> nat
    decreases m,
{
    if m == 0 {
        0
    } else {
        strip_channel_sum(img, s, (m - 1) as nat, c) + row_channel_sum(
            img,
            s + 4 * (m - 1),
            sample_count(img.width),
            c,
        )
    }
}

/// Sum of the squares of channel `c` over the first `m` sampled rows of the strip at `s`.
pub open spec fn strip_channel_sq(img: FrameModel, s: int, m: nat, c: int) -> nat
    decreases m,
{
    if m == 0 {
        0
    } else {
        strip_channel_sq(img, s, (m - 1) as nat, c) + row_channel_sq(
            img,
            s + 4 * (m - 1),
            sample_count(img.width),
            c,
        )
    }
}

/// Number of sampled pixels in a 32-row strip.
pub open spec fn strip_pixels(width: nat) -> nat {
    8 * sample_count(width)
}

/// The spread of channel `c` in the strip at `s`: the variance of its
/// sampled values times the square of their count.
pub open spec fn channel_spread(img: FrameModel, s: int, c: int) -> int {
    strip_pixels(img.width) * strip_channel_sq(img, s, 8, c) - strip_channel_sum(img, s, 8, c)
        * strip_channel_sum(img, s, 8, c)
}

/// How textured the 32-row strip at `s` is: the per-channel variances of
/// its sampled pixels, summed over R, G and B (alpha ignored), times the
/// square of the sample count, the same for every strip of a frame.
pub open spec fn texture(img: FrameModel, s: int) -> int {
    channel_spread(img, s, 0) + channel_spread(img, s, 1) + channel_spread(img, s, 2)
}

/// The last row at which a candidate strip may start: half the height, and
/// never so low that the strip leaves the frame.
pub open spec fn max_strip_start(height: nat) -> int {
    if height / 2 <= height - 32 {
        (height / 2) as int
    } else {
        height - 32
    }
}

/// Candidate strip starts: 0, 16, 32, ... up to `max_strip_start`.
pub open spec fn is_strip_candidate(img: FrameModel, s: int) -> bool {
    0 <= s <= max_strip_start(img.height) && s % 16 == 0
}

/// `s` is the candidate with the highest texture, the smallest on ties.
pub open spec fn is_most_textured(img: FrameModel, s: int) -> bool {
    &&& is_strip_candidate(img, s)
    &&& forall|k: int| is_strip_candidate(img, k) ==> #[trigger] texture(img, k) <= texture(img, s)
    &&& forall|k: int| is_strip_candidate(img, k) && k < s ==> #[trigger] texture(img, k) < texture(img, s)
}

/// The strip of a frame that matching uses: its most textured candidate.
pub open spec fn textured_strip(img: FrameModel) -> int {
    choose|s: int| is_most_textured(img, s)
}

/// `o` has the smallest difference for the strip at `s`, among the offsets
/// that keep the strip inside `prev`, and no smaller offset ties it.
pub open spec fn is_best_offset(prev: FrameModel, next: FrameModel, s: int, o: int) -> bool {
    &&& 0 <= o <= prev.height - 32 - s
    &&& forall|k: int|
        0 <= k <= prev.height - 32 - s ==> offset_diff(prev, next, s, o) <= #[trigger] offset_diff(
            prev,
            next,
            s,
            k,
        )
    &&& forall|k: int| 0 <= k < o ==> offset_diff(prev, next, s, o) < #[trigger] offset_diff(prev, next, s, k)
}

/// The scroll offset between two normalized frames: the most textured strip
/// of `next` is slid down `prev`, and the best match is trusted only when
/// its mean channel difference is at most 6.
pub open spec fn scroll_offset(prev: FrameModel, next: FrameModel) -> Option<u32> {
    if !offset_search_applies(prev, next) {
        None
    } else {
        let s = textured_strip(next);
        let o = choose|o: u32| is_best_offset(prev, next, s, o as int);
        if offset_diff(prev, next, s, o as int) <= 6 * offset_samples(prev.width) {
            Some(o)
        } else {
            None
        }
    }
}

/// A pixel counts as changed when some RGB channel moves by more than 12.
pub open spec fn pixel_changed(p: Rgba, q: Rgba) -> bool {
    abs_diff(p.r, q.r) > 12 || abs_diff(p.g, q.g) > 12 || abs_diff(p.b, q.b) > 12
}

/// Changed pixels among the first `n` sampled columns of row `y`.
pub open spec fn row_changed(a: FrameModel, b: FrameModel, y: int, n: nat) -> nat
    decreases n,
{
    if n == 0 {
        0
    } else {
        row_changed(a, b, y, (n - 1) as nat) + if pixel_changed(a.px(4 * (n - 1), y), b.px(4 * (n - 1), y)) {
            1nat
        } else {
            0nat
        }
    }
}

/// Changed pixels among the first `m` sampled rows.
pub open spec fn changed_count(a: FrameModel, b: FrameModel, m: nat) -> nat
    decreases m,
{
    if m == 0 {
        0
    } else {
        changed_count(a, b, (m - 1) as nat) + row_changed(a, b, 4 * (m - 1), sample_count(a.width))
    }
}

/// Frames are similar when they have the same non-empty size and at most 1%
/// of the sampled pixels (every fourth row and column) changed.
pub open spec fn similar(a: FrameModel, b: FrameModel) -> bool {
    &&& a.width == b.width
    &&& a.height == b.height
    &&& a.width > 0
    &&& a.height > 0
    &&& 100 * changed_count(a, b, sample_count(a.height)) <= sample_count(a.height) * sample_count(
        a.width,
    )
}

/// What a scrolling-capture step makes of a new frame: `None` ends the
/// capture (no real movement), otherwise the offset to stitch with, falling
/// back to `nominal` when the match is missing or pinned at 0.
pub open spec fn step_offset_spec(prev: FrameModel, next: FrameModel, nominal: u32) -> Option<u32> {
    match scroll_offset(prev, next) {
        Some(o) => if o == 0 {
            if similar(prev, next) {
                None
            } else {
                Some(nominal)
            }
        } else {
            Some(o)
        },
        None => Some(nominal),
    }
}

proof fn lemma_best_offset_unique(prev: FrameModel, next: FrameModel, s: int, o1: int, o2: int)
    requires
        is_best_offset(prev, next, s, o1),
        is_best_offset(prev, next, s, o2),
    ensures
        o1 == o2,
{
    if o1 < o2 {
        assert(offset_diff(prev, next, s, o2) < offset_diff(prev, next, s, o1));
    } else if o2 < o1 {
        assert(offset_diff(prev, next, s, o1) < offset_diff(prev, next, s, o2));
    }
}

proof fn lemma_most_textured_unique(img: FrameModel, s1: int, s2: int)
    requires
        is_most_textured(img, s1),
        is_most_textured(img, s2),
    ensures
        s1 == s2,
{
    if s1 < s2 {
        assert(texture(img, s1) < texture(img, s2));
        assert(texture(img, s2) <= texture(img, s1));
    } else if s2 < s1 {
        assert(texture(img, s2) < texture(img, s1));
        assert(texture(img, s1) <= texture(img, s2));
    }
}

/// The most textured of the starts 0, 16, ..., 16 * k, the smallest on ties.
spec fn best_strip_upto(img: FrameModel, k: nat) -> int
    decreases k,
{
    if k == 0 {
        0
    } else {
        let b = best_strip_upto(img, (k - 1) as nat);
        if texture(img, (16 * k) as int) > texture(img, b) {
            (16 * k) as int
        } else {
            b
        }
    }
}

proof fn lemma_best_strip_upto(img: FrameModel, k: nat)
    ensures
        0 <= best_strip_upto(img, k) <= 16 * k,
        best_strip_upto(img, k) % 16 == 0,
        forall|j: int|
            0 <= j <= 16 * k && j % 16 == 0 ==> #[trigger] texture(img, j) <= texture(
                img,
                best_strip_upto(img, k),
            ),
        forall|j: int|
            0 <= j < best_strip_upto(img, k) && j % 16 == 0 ==> #[trigger] texture(img, j) < texture(
                img,
                best_strip_upto(img, k),
            ),
    decreases k,
{
    if k > 0 {
        lemma_best_strip_upto(img, (k - 1) as nat);
        let b = best_strip_upto(img, (k - 1) as nat);
        let r = best_strip_upto(img, k);
        assert forall|j: int| 0 <= j <= 16 * k && j % 16 == 0 implies #[trigger] texture(img, j) <= texture(
            img,
            r,
        ) by {
            if j != 16 * k {
                assert(j <= 16 * (k - 1));
            }
        }
        assert forall|j: int| 0 <= j < r && j % 16 == 0 implies #[trigger] texture(img, j) < texture(
            img,
            r,
        ) by {
            if j != 16 * k && r == 16 * k {
                assert(j <= 16 * (k - 1));
            }
        }
    }
}

proof fn lemma_most_textured_exists(img: FrameModel)
    requires
        img.height > 32,
    ensures
        is_most_textured(img, textured_strip(img)),
{
    let top = max_strip_start(img.height);
    let k = (top / 16) as nat;
    lemma_best_strip_upto(img, k);
    let b = best_strip_upto(img, k);
    assert(16 * k <= top);
    assert forall|j: int| is_strip_candidate(img, j) implies #[trigger] texture(img, j) <= texture(img, b) by {
        assert(j <= 16 * k);
    }
    assert forall|j: int| is_strip_candidate(img, j) && j < b implies #[trigger] texture(img, j) < texture(
        img,
        b,
    ) by {
        assert(j <= 16 * k);
    }
    assert(is_most_textured(img, b));
}

fn channel_abs_diff(a: u8, b: u8) -> (d: u64)
    ensures
        d == abs_diff(a, b),
        d <= 255,
{
    if a >= b {
        (a - b) as u64
    } else {
        (b - a) as u64
    }
}

fn square(v: u8) -> (r: u64)
    ensures
        r == v as nat * v as nat,
        r <= 65025,
{
    assert(v as nat * v as nat <= 65025) by (nonlinear_arith)
        requires
            v <= 255,
    ;
    (v as u64) * (v as u64)
}

/// Strip difference for one candidate offset of the strip at `s`.
fn offset_sum(prev: &Frame, next: &Frame, s: u32, offset: u32) -> (sum: u64)
    requires
        prev.wf(),
        next.wf(),
        offset_search_applies(prev@, next@),
        s + offset + 32 <= prev@.height,
    ensures
        sum == offset_diff(prev@, next@, s as int, offset as int),
        sum <= 0x800_0000_0000,
{
    let (w, h) = prev.dimensions();
    let mut sum: u64 = 0;
    let mut y: u32 = 0;
    let ghost mut j: nat = 0;
    while y < 32
        invariant
            prev.wf(),
            next.wf(),
            offset_search_applies(prev@, next@),
            w == prev@.width,
            h == prev@.height,
            s + offset + 32 <= h,
            y == 4 * j,
            j <= 8,
            sum == strip_diff(prev@, next@, s as int, offset as int, j),
            sum <= j * 0x100_0000_0000,
        decreases 32 - y,
    {
        let mut row: u64 = 0;
        let mut x: u64 = 0;
        let ghost mut i: nat = 0;
        while x < w as u64
            invariant
                prev.wf(),
                next.wf(),
                offset_search_applies(prev@, next@),
                w == prev@.width,
                h == prev@.height,
                s + offset + 32 <= h,
                y < 32,
                y == 4 * j,
                x == 4 * i,
                i == 0 || 4 * (i - 1) < w,
                row == row_diff(prev@, next@, offset as int, s + y, i),
                row <= 765 * i,
            decreases w + 4 - x,
        {
            let a = prev.get_pixel(x as u32, s + y + offset);
            let b = next.get_pixel(x as u32, s + y);
            row = row + channel_abs_diff(a.r, b.r) + channel_abs_diff(a.g, b.g) + channel_abs_diff(a.b, b.b);
            x = x + 4;
            proof {
                i = i + 1;
            }
        }
        assert(i == sample_count(w as nat));
        sum = sum + row;
        y = y + 4;
        proof {
            j = j + 1;
        }
    }
    sum
}

/// Per-channel sums and sums of squares of the sampled pixels of the strip at `s`.
fn strip_moments(img: &Frame, s: u32) -> (m: (u64, u64, u64, u64, u64, u64))
    requires
        img.wf(),
        img@.width > 0,
        s + 32 <= img@.height,
    ensures
        m.0 == strip_channel_sum(img@, s as int, 8, 0),
        m.1 == strip_channel_sum(img@, s as int, 8, 1),
        m.2 == strip_channel_sum(img@, s as int, 8, 2),
        m.3 == strip_channel_sq(img@, s as int, 8, 0),
        m.4 == strip_channel_sq(img@, s as int, 8, 1),
        m.5 == strip_channel_sq(img@, s as int, 8, 2),
        m.0 <= 0x200_0000_0000,
        m.1 <= 0x200_0000_0000,
        m.2 <= 0x200_0000_0000,
        m.3 <= 0x2_0000_0000_0000,
        m.4 <= 0x2_0000_0000_0000,
        m.5 <= 0x2_0000_0000_0000,
{
    let (w, h) = img.dimensions();
    let mut sr: u64 = 0;
    let mut sg: u64 = 0;
    let mut sb: u64 = 0;
    let mut qr: u64 = 0;
    let mut qg: u64 = 0;
    let mut qb: u64 = 0;
    let mut y: u32 = 0;
    let ghost mut j: nat = 0;
    while y < 32
        invariant
            img.wf(),
            w == img@.width,
            h == img@.height,
            w > 0,
            s + 32 <= h,
            y == 4 * j,
            j <= 8,
            sr == strip_channel_sum(img@, s as int, j, 0),
            sg == strip_channel_sum(img@, s as int, j, 1),
            sb == strip_channel_sum(img@, s as int, j, 2),
            qr == strip_channel_sq(img@, s as int, j, 0),
            qg == strip_channel_sq(img@, s as int, j, 1),
            qb == strip_channel_sq(img@, s as int, j, 2),
            sr <= j * 0x40_0000_0000,
            sg <= j * 0x40_0000_0000,
            sb <= j * 0x40_0000_0000,
            qr <= j * 0x4000_0000_0000,
            qg <= j * 0x4000_0000_0000,
            qb <= j * 0x4000_0000_0000,
        decreases 32 - y,
    {
        let mut rr: u64 = 0;
        let mut rg: u64 = 0;
        let mut rb: u64 = 0;
        let mut tr: u64 = 0;
        let mut tg: u64 = 0;
        let mut tb: u64 = 0;
        let mut x: u64 = 0;
        let ghost mut i: nat = 0;
        while x < w as u64
            invariant
                img.wf(),
                w == img@.width,
                h == img@.height,
                s + 32 <= h,
                y < 32,
                y == 4 * j,
                x == 4 * i,
                i == 0 || 4 * (i - 1) < w,
                rr == row_channel_sum(img@, s + y, i, 0),
                rg == row_channel_sum(img@, s + y, i, 1),
                rb == row_channel_sum(img@, s + y, i, 2),
                tr == row_channel_sq(img@, s + y, i, 0),
                tg == row_channel_sq(img@, s + y, i, 1),
                tb == row_channel_sq(img@, s + y, i, 2),
                rr <= 255 * i,
                rg <= 255 * i,
                rb <= 255 * i,
                tr <= 65025 * i,
                tg <= 65025 * i,
                tb <= 65025 * i,
            decreases w + 4 - x,
        {
            let p = img.get_pixel(x as u32, s + y);
            rr = rr + p.r as u64;
            rg = rg + p.g as u64;
            rb = rb + p.b as u64;
            tr = tr + square(p.r);
            tg = tg + square(p.g);
            tb = tb + square(p.b);
            x = x + 4;
            proof {
                i = i + 1;
            }
        }
        assert(i == sample_count(w as nat));
        assert(i <= 0x4000_0000);
        sr = sr + rr;
        sg = sg + rg;
        sb = sb + rb;
        qr = qr + tr;
        qg = qg + tg;
        qb = qb + tb;
        y = y + 4;
        proof {
            j = j + 1;
        }
    }
    (sr, sg, sb, qr, qg, qb)
}

fn spread(n: u64, sum: u64, sq: u64) -> (r: i128)
    requires
        n <= 0x2_0000_0000,
        sum <= 0x200_0000_0000,
        sq <= 0x2_0000_0000_0000,
    ensures
        r == n * sq - sum * sum,
        -0x4_0000_0000_0000_0000_0000 <= r <= 0x4_0000_0000_0000_0000_0000,
{
    assert(n * sq <= 0x2_0000_0000 * 0x2_0000_0000_0000) by (nonlinear_arith)
        requires
            n <= 0x2_0000_0000,
            sq <= 0x2_0000_0000_0000,
    ;
    assert(sum * sum <= 0x200_0000_0000 * 0x200_0000_0000) by (nonlinear_arith)
        requires
            sum <= 0x200_0000_0000,
    ;
    let a: i128 = (n as i128) * (sq as i128);
    let b: i128 = (sum as i128) * (sum as i128);
    a - b
}

/// The texture score of the strip at `s`.
fn texture_score(img: &Frame, s: u32) -> (t: i128)
    requires
        img.wf(),
        img@.width > 0,
        s + 32 <= img@.height,
    ensures
        t == texture(img@, s as int),
{
    let (w, h) = img.dimensions();
    let n: u64 = 8 * ((w as u64 + 3) / 4);
    assert(n == strip_pixels(w as nat));
    let m = strip_moments(img, s);
    spread(n, m.0, m.3) + spread(n, m.1, m.4) + spread(n, m.2, m.5)
}

/// Start row of the most textured 32-row strip in the top half of `img`
/// (candidates every 16 rows, ties keeping the smallest start): a blank
/// strip matches at every offset, the busiest one keeps the match
/// unambiguous. 0 for a frame too small to search.
pub fn most_textured_strip(img: &Frame) -> (s: u32)
    requires
        img.wf(),
    ensures
        img@.height <= 32 || img@.width == 0 ==> s == 0,
        img@.height > 32 && img@.width > 0 ==> is_most_textured(img@, s as int),
{
    let (w, h) = img.dimensions();
    if h <= 32 || w == 0 {
        return 0;
    }
    let max_start: u32 = if h / 2 <= h - 32 {
        h / 2
    } else {
        h - 32
    };
    assert(max_start == max_strip_start(h as nat));
    let mut best_start: u32 = 0;
    let mut best_score: i128 = texture_score(img, 0);
    let mut s: u32 = 16;
    while s <= max_start
        invariant
            img.wf(),
            w == img@.width,
            h == img@.height,
            w > 0,
            h > 32,
            max_start == max_strip_start(h as nat),
            max_start + 32 <= h,
            s % 16 == 0,
            16 <= s <= max_start + 16,
            best_start < s,
            is_strip_candidate(img@, best_start as int),
            best_score == texture(img@, best_start as int),
            forall|k: int| is_strip_candidate(img@, k) && k < s ==> #[trigger] texture(img@, k) <= best_score,
            forall|k: int| is_strip_candidate(img@, k) && k < best_start ==> #[trigger] texture(img@, k) < best_score,
        decreases max_start + 16 - s,
    {
        let score = texture_score(img, s);
        if score > best_score {
            best_score = score;
            best_start = s;
        }
        s = s + 16;
    }
    best_start
}

/// The largest scroll the offset search is sure to detect on frames
/// `height` rows tall, whichever strip it picks: the offsets below the
/// lowest candidate strip.
pub open spec fn detectable_offset(height: nat) -> int {
    if height <= 32 {
        0
    } else {
        height - 32 - max_strip_start(height)
    }
}

/// `detectable_offset` of a frame height.
pub fn max_detectable_offset(height: u32) -> (d: u32)
    ensures
        d == detectable_offset(height as nat),
{
    if height <= 32 {
        0
    } else {
        let top = if height / 2 <= height - 32 {
            height / 2
        } else {
            height - 32
        };
        height - 32 - top
    }
}

/// Every offset up to `detectable_offset` lies in the search range of every
/// candidate strip.
pub proof fn lemma_detectable_offsets_are_searched(img: FrameModel, s: int, o: int)
    requires
        img.height > 32,
        is_strip_candidate(img, s),
        0 <= o <= detectable_offset(img.height),
    ensures
        0 <= o <= img.height - 32 - s,
{
}

/// How many pixels the content moved between two normalized frames: slide
/// the most textured strip of `next` down `prev` and take the best
/// (smallest-offset) match, provided its mean per-channel difference is at
/// most 6.
pub fn find_scroll_offset(prev: &Frame, next: &Frame) -> (r: Option<u32>)
    requires
        prev.wf(),
        next.wf(),
    ensures
        r == scroll_offset(prev@, next@),
{
    let (w, h) = prev.dimensions();
    let (next_w, next_h) = next.dimensions();
    if next_w != w || next_h != h || h <= 32 || w == 0 {
        return None;
    }
    let strip = most_textured_strip(next);
    proof {
        lemma_most_textured_exists(next@);
        lemma_most_textured_unique(next@, strip as int, textured_strip(next@));
    }
    let last = h - 32 - strip;
    let mut best_offset: u32 = 0;
    let mut best_sum: u64 = u64::MAX;
    let mut offset: u32 = 0;
    while offset <= last
        invariant
            prev.wf(),
            next.wf(),
            offset_search_applies(prev@, next@),
            w == prev@.width,
            h == prev@.height,
            strip + 32 <= h,
            last == h - 32 - strip,
            offset <= last + 1,
            offset == 0 ==> best_sum == u64::MAX,
            offset > 0 ==> {
                &&& best_offset < offset
                &&& best_sum == offset_diff(prev@, next@, strip as int, best_offset as int)
                &&& forall|k: int|
                    0 <= k < offset ==> best_sum <= #[trigger] offset_diff(prev@, next@, strip as int, k)
                &&& forall|k: int|
                    0 <= k < best_offset ==> best_sum < #[trigger] offset_diff(prev@, next@, strip as int, k)
            },
        decreases last + 1 - offset,
    {
        let sum = offset_sum(prev, next, strip, offset);
        if sum < best_sum {
            best_sum = sum;
            best_offset = offset;
        }
        offset = offset + 1;
    }
    let samples: u64 = 24 * ((w as u64 + 3) / 4);
    proof {
        assert(is_best_offset(prev@, next@, strip as int, best_offset as int));
        let o = choose|o: u32| is_best_offset(prev@, next@, strip as int, o as int);
        lemma_best_offset_unique(prev@, next@, strip as int, o as int, best_offset as int);
        assert(samples == offset_samples(w as nat));
    }
    if best_sum <= 6 * samples {
        Some(best_offset)
    } else {
        None
    }
}

/// Sampled full-frame similarity: same non-empty size and at most 1% of the
/// sampled pixels changed. Distinguishes "reached the end of the page" from
/// "a fixed header made offset 0 look like the best match".
pub fn frames_similar(a: &Frame, b: &Frame) -> (r: bool)
    requires
        a.wf(),
        b.wf(),
    ensures
        r == similar(a@, b@),
{
    let (w, h) = a.dimensions();
    let (bw, bh) = b.dimensions();
    if bw != w || bh != h {
        return false;
    }
    if w == 0 || h == 0 {
        return false;
    }
    let mut changed: u64 = 0;
    let mut y: u64 = 0;
    let ghost mut j: nat = 0;
    while y < h as u64
        invariant
            a.wf(),
            b.wf(),
            w == a@.width,
            h == a@.height,
            w == b@.width,
            h == b@.height,
            y == 4 * j,
            j == 0 || 4 * (j - 1) < h,
            changed == changed_count(a@, b@, j),
            changed <= j * 0x4000_0000,
        decreases h + 4 - y,
    {
        let mut row: u64 = 0;
        let mut x: u64 = 0;
        let ghost mut i: nat = 0;
        while x < w as u64
            invariant
                a.wf(),
                b.wf(),
                w == a@.width,
                h == a@.height,
                w == b@.width,
                h == b@.height,
                y < h,
                y == 4 * j,
                x == 4 * i,
                i == 0 || 4 * (i - 1) < w,
                row == row_changed(a@, b@, y as int, i),
                row <= i,
            decreases w + 4 - x,
        {
            let pa = a.get_pixel(x as u32, y as u32);
            let pb = b.get_pixel(x as u32, y as u32);
            if channel_abs_diff(pa.r, pb.r) > 12 || channel_abs_diff(pa.g, pb.g) > 12 || channel_abs_diff(
                pa.b,
                pb.b,
            ) > 12 {
                row = row + 1;
            }
            x = x + 4;
            proof {
                i = i + 1;
            }
        }
        assert(i == sample_count(w as nat));
        changed = changed + row;
        y = y + 4;
        proof {
            j = j + 1;
        }
    }
    assert(j == sample_count(h as nat));
    let rows_sampled: u64 = (h as u64 + 3) / 4;
    let cols_sampled: u64 = (w as u64 + 3) / 4;
    assert(rows_sampled <= 0x4000_0000 && cols_sampled <= 0x4000_0000);
    assert(rows_sampled * cols_sampled <= 0x4000_0000 * 0x4000_0000) by (nonlinear_arith)
        requires
            rows_sampled <= 0x4000_0000,
            cols_sampled <= 0x4000_0000,
    ;
    let total: u128 = (rows_sampled as u128) * (cols_sampled as u128);
    (changed as u128) * 100 <= total
}

/// One step of the scrolling-capture loop after grabbing a new normalized
/// frame: `None` means the content stopped moving (only scrollbar-fade or
/// caret noise) and the capture is complete; otherwise the offset to stitch
/// with, where a missing or zero match falls back to `nominal`.
pub fn step_offset(prev: &Frame, next: &Frame, nominal: u32) -> (r: Option<u32>)
    requires
        prev.wf(),
        next.wf(),
    ensures
        r == step_offset_spec(prev@, next@, nominal),
        r == Some(0u32) ==> nominal == 0,
        scroll_offset(prev@, next@) == Some(0u32) && !similar(prev@, next@) ==> r == Some(nominal),
{
    proof {
        lemma_step_never_stalls(prev@, next@, nominal);
    }
    match find_scroll_offset(prev, next) {
        Some(0) => {
            if frames_similar(prev, next) {
                None
            } else {
                Some(nominal)
            }
        },
        None => Some(nominal),
        Some(offset) => Some(offset),
    }
}

/// A scrolling-capture step either ends the capture or stitches rows: it
/// never asks to stitch zero rows unless the nominal step itself is zero. A
/// match pinned at offset 0 (a fixed header) on frames that are not similar
/// falls back to the nominal step; on similar frames the capture ends; a
/// nonzero match is used as it is; no match falls back to the nominal step.
pub proof fn lemma_step_never_stalls(prev: FrameModel, next: FrameModel, nominal: u32)
    ensures
        step_offset_spec(prev, next, nominal) == Some(0u32) ==> nominal == 0,
        scroll_offset(prev, next) == Some(0u32) && !similar(prev, next) ==> step_offset_spec(
            prev,
            next,
            nominal,
        ) == Some(nominal),
        scroll_offset(prev, next) == Some(0u32) && similar(prev, next) ==> step_offset_spec(
            prev,
            next,
            nominal,
        ) is None,
        scroll_offset(prev, next) matches Some(o) ==> (o != 0 ==> step_offset_spec(prev, next, nominal)
            == Some(o)),
        scroll_offset(prev, next) is None ==> step_offset_spec(prev, next, nominal) == Some(nominal),
{
}

/// Stitching is exact: when `next` shows the page `k` rows further down than
/// `prev` (both full-width views of the same page), appending the bottom `k`
/// rows of `next` to `prev` yields the page region they span together.
pub proof fn lemma_append_reconstructs_page(page: FrameModel, y0: int, h: nat, k: nat)
    requires
        page.wf(),
        0 <= y0,
        k <= h,
        y0 + h + k <= page.height,
    ensures
        appended(page.region(0, y0, page.width, h), page.region(0, y0 + k, page.width, h), k) == page.region(
            0,
            y0,
            page.width,
            h + k,
        ),
{
    let prev = page.region(0, y0, page.width, h);
    let next = page.region(0, y0 + k, page.width, h);
    let out = appended(prev, next, k);
    let target = page.region(0, y0, page.width, h + k);
    lemma_from_fn_wf(page.width, h, |x: int, y: int| page.px(0 + x, y0 + y));
    lemma_from_fn_wf(page.width, h, |x: int, y: int| page.px(0 + x, y0 + k + y));
    lemma_from_fn_wf(page.width, h + k, |x: int, y: int| page.px(0 + x, y0 + y));
    assert(appended_rows(next, k) == k);
    assert(min_nat(next.width, prev.width) == page.width);
    let f = |x: int, y: int|
        if y < prev.height {
            prev.px(x, y)
        } else if x < min_nat(next.width, prev.width) {
            next.px(x, next.height - k + (y - prev.height))
        } else {
            Rgba::zero()
        };
    lemma_from_fn_wf(prev.width, prev.height + k, f);
    assert forall|x: int, y: int| 0 <= x < out.width && 0 <= y < out.height implies #[trigger] out.px(x, y)
        == target.px(x, y) by {
        if y >= h {
            assert(next.px(x, h - k + (y - h)) == page.px(x, y0 + k + (h - k + (y - h))));
        }
    }
    lemma_same_is_equal(out, target);
}

proof fn lemma_self_row_diff_zero(m: FrameModel, y: int, n: nat)
    ensures
        row_diff(m, m, 0, y, n) == 0,
        row_changed(m, m, y, n) == 0,
    decreases n,
{
    if n > 0 {
        lemma_self_row_diff_zero(m, y, (n - 1) as nat);
    }
}

proof fn lemma_self_strip_zero(m: FrameModel, s: int, j: nat)
    ensures
        strip_diff(m, m, s, 0, j) == 0,
        changed_count(m, m, j) == 0,
    decreases j,
{
    if j > 0 {
        lemma_self_strip_zero(m, s, (j - 1) as nat);
        lemma_self_row_diff_zero(m, s + 4 * (j - 1), sample_count(m.width));
        lemma_self_row_diff_zero(m, 4 * (j - 1), sample_count(m.width));
    }
}

/// A frame compared with itself: the content did not move (offset 0) and
/// the frames are similar, so a scrolling capture that sees the same frame
/// twice stops.
pub proof fn lemma_identical_frames(m: FrameModel)
    requires
        m.height > 32,
        m.width > 0,
    ensures
        scroll_offset(m, m) == Some(0u32),
        similar(m, m),
        step_offset_spec(m, m, 0) is None,
{
    lemma_most_textured_exists(m);
    let s = textured_strip(m);
    lemma_self_strip_zero(m, s, 8);
    lemma_self_strip_zero(m, 0, sample_count(m.height));
    assert(is_best_offset(m, m, s, 0));
    let o = choose|o: u32| is_best_offset(m, m, s, o as int);
    lemma_best_offset_unique(m, m, s, o as int, 0);
}

} // verus!
