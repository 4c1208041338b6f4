use vstd::prelude::*;

verus! {

/// Rotation directions for [`Bitmap::rotate`].
#[allow(unused)]
pub enum Direction {
    Left,
    Right,
}

/// A resizable two-dimensional one-bit pixel grid, addressed by row then
/// column.  Every row has the same length; [`Bitmap::wf`] states that.
#[derive(Clone, PartialEq, Eq, Debug)]
pub struct Bitmap {
    contents: Vec<Vec<u8>>,
}

/// The width of a pixel grid: the length of its first row (zero when there
/// are no rows).
pub open spec fn grid_w(g: Seq<Seq<u8>>) -> nat {
    if g.len() == 0 {
        0
    } else {
        g[0].len()
    }
}

/// A rectangular grid: every row as long as the first.
pub open spec fn grid_wf(g: Seq<Seq<u8>>) -> bool {
    forall|i: int| 0 <= i < g.len() ==> (#[trigger] g[i].len()) == grid_w(g)
}

/// A row of `w` unset pixels.
pub open spec fn zero_row(w: nat) -> Seq<u8> {
    Seq::new(w, |j: int| 0u8)
}

/// An all-zero grid of the given dimensions.
pub open spec fn zero_grid(w: nat, h: nat) -> Seq<Seq<u8>> {
    Seq::new(h, |i: int| zero_row(w))
}

/// A row truncated or zero-extended on the right to length `w`.
pub open spec fn resize_row(r: Seq<u8>, w: nat) -> Seq<u8> {
    Seq::new(w, |j: int| if j < r.len() { r[j] } else { 0u8 })
}

/// Every row truncated or zero-extended to width `w`; row count unchanged.
pub open spec fn resize_width(g: Seq<Seq<u8>>, w: nat) -> Seq<Seq<u8>> {
    Seq::new(g.len(), |i: int| resize_row(g[i], w))
}

/// Rows dropped from, or zero rows of width `w` appended at, the high end
/// so that the grid has `h` rows.
pub open spec fn resize_height(g: Seq<Seq<u8>>, h: nat, w: nat) -> Seq<Seq<u8>> {
    Seq::new(h, |i: int| if i < g.len() { g[i] } else { zero_row(w) })
}

/// `dst` with the rectangle at offset `(x, y)` overwritten by `src`;
/// everything outside that rectangle is unchanged, and the dimensions are
/// those of `dst`.
pub open spec fn write_rect(dst: Seq<Seq<u8>>, src: Seq<Seq<u8>>, x: int, y: int) -> Seq<
    Seq<u8>,
> {
    Seq::new(
        dst.len(),
        |i: int|
            Seq::new(
                dst[i].len(),
                |j: int|
                    if y <= i < y + src.len() && x <= j < x + src[i - y].len() {
                        src[i - y][j - x]
                    } else {
                        dst[i][j]
                    },
            ),
    )
}

/// What [`Bitmap::blit`] leaves in the destination: an empty destination is
/// first bootstrapped to a single unset pixel, then the grid grows (never
/// shrinks) so the source fits entirely at offset `(x, y)`, and the source
/// rectangle is written.
pub open spec fn blit_spec(dst: Seq<Seq<u8>>, src: Seq<Seq<u8>>, x: int, y: int) -> Seq<
    Seq<u8>,
> {
    let d0 = if grid_w(dst) == 0 {
        seq![zero_row(1)]
    } else {
        dst
    };
    let d1 = if grid_w(src) + x > grid_w(d0) {
        resize_width(d0, (grid_w(src) + x) as nat)
    } else {
        d0
    };
    let d2 = if src.len() + y > d1.len() {
        resize_height(d1, (src.len() + y) as nat, grid_w(d1))
    } else {
        d1
    };
    write_rect(d2, src, x, y)
}

/// A quarter turn to the left: pixel `(x, y)` of `g` (column `x`, row `y`)
/// lands at `(y, width - x - 1)` in the result, which has width and height
/// swapped.
pub open spec fn rotate_left_spec(g: Seq<Seq<u8>>) -> Seq<Seq<u8>> {
    Seq::new(grid_w(g), |i: int| Seq::new(g.len(), |j: int| g[j][grid_w(g) - 1 - i]))
}

/// A quarter turn to the right: pixel `(x, y)` of `g` lands at
/// `(height - y - 1, x)` in the result, which has width and height swapped.
pub open spec fn rotate_right_spec(g: Seq<Seq<u8>>) -> Seq<Seq<u8>> {
    Seq::new(grid_w(g), |i: int| Seq::new(g.len(), |j: int| g[g.len() - 1 - j][i]))
}

/// The sub-rectangle of `g` of size `(w, h)` whose top-left corner is at
/// `(x, y)`.
pub open spec fn clip_spec(g: Seq<Seq<u8>>, x: int, y: int, w: nat, h: nat) -> Seq<Seq<u8>> {
    Seq::new(h, |i: int| Seq::new(w, |j: int| g[y + i][x + j]))
}

impl View for Bitmap {
    type V = Seq<Seq<u8>>;

    closed spec fn view(&self) -> Seq<Seq<u8>> {
        Seq::new(self.contents@.len(), |i: int| self.contents@[i]@)
    }
}

fn make_zero_row(w: usize) -> (r: Vec<u8>)
    ensures
        r@ == zero_row(w as nat),
{
    let mut row: Vec<u8> = Vec::new();
    let mut j: usize = 0;
    while j < w
        invariant
            j <= w,
            row@ =~= zero_row(j as nat),
        decreases w - j,
    {
        row.push(0u8);
        proof {
            assert(row@ =~= zero_row((j + 1) as nat));
        }
        j = j + 1;
    }
    proof {
        assert(row@ =~= zero_row(w as nat));
    }
    row
}

impl Bitmap {
    /// Rectangular: every row has the same length.
    pub open spec fn wf(&self) -> bool {
        grid_wf(self@)
    }

    pub open spec fn spec_width(&self) -> nat {
        grid_w(self@)
    }

    pub open spec fn spec_height(&self) -> nat {
        self@.len()
    }

    /// An all-zero grid; either dimension may be zero.
    pub fn new(width: usize, height: usize) -> (r: Bitmap)
        ensures
            r@ == zero_grid(width as nat, height as nat),
            r.wf(),
    {
        let mut contents: Vec<Vec<u8>> = Vec::new();
        let mut i: usize = 0;
        while i < height
            invariant
                i <= height,
                contents@.len() == i as int,
                forall|k: int| 0 <= k < i ==> (#[trigger] contents@[k]@) == zero_row(width as nat),
            decreases height - i,
        {
            let row = make_zero_row(width);
            contents.push(row);
            i = i + 1;
        }
        let r = Bitmap { contents };
        proof {
            assert(r@ =~= zero_grid(width as nat, height as nat));
        }
        r
    }

    /// A grid holding a copy of the given rows, which must all have the
    /// same length.
    pub fn from_slice(slice: &[&[u8]]) -> (r: Bitmap)
        requires
            forall|i: int| 0 <= i < slice@.len() ==> (#[trigger] slice@[i]@.len()) == slice@[0]@.len(),
        ensures
            r@.len() == slice@.len(),
            forall|i: int| 0 <= i < slice@.len() ==> (#[trigger] r@[i]) == slice@[i]@,
            r.wf(),
    {
        let mut contents: Vec<Vec<u8>> = Vec::new();
        let mut i: usize = 0;
        while i < slice.len()
            invariant
                i <= slice@.len(),
                contents@.len() == i as int,
                forall|k: int| 0 <= k < i ==> (#[trigger] contents@[k]@) == slice@[k]@,
                forall|k: int|
                    0 <= k < slice@.len() ==> (#[trigger] slice@[k]@.len()) == slice@[0]@.len(),
            decreases slice@.len() - i,
        {
            let src: &[u8] = slice[i];
            let mut row: Vec<u8> = Vec::new();
            let mut j: usize = 0;
            while j < src.len()
                invariant
                    j <= src@.len(),
                    row@ =~= src@.subrange(0, j as int),
                decreases src@.len() - j,
            {
                row.push(src[j]);
                proof {
                    assert(row@ =~= src@.subrange(0, (j + 1) as int));
                }
                j = j + 1;
            }
            proof {
                assert(row@ =~= src@);
            }
            contents.push(row);
            i = i + 1;
        }
        Bitmap { contents }
    }

    /// Wraps ready-made rows, which must all have the same length.
    pub(crate) fn from_rows(rows: Vec<Vec<u8>>) -> (r: Bitmap)
        requires
            forall|i: int|
                0 <= i < rows@.len() ==> (#[trigger] rows@[i]@.len()) == rows@[0]@.len(),
        ensures
            r@.len() == rows@.len(),
            forall|i: int| 0 <= i < rows@.len() ==> (#[trigger] r@[i]) == rows@[i]@,
            r.wf(),
    {
        Bitmap { contents: rows }
    }

    /// The common length of the rows, or zero when there are none.
    pub fn width(&self) -> (w: usize)
        ensures
            w == self.spec_width(),
    {
        if self.contents.len() == 0 {
            0
        } else {
            self.contents[0].len()
        }
    }

    /// The number of rows.
    pub fn height(&self) -> (h: usize)
        ensures
            h == self.spec_height(),
    {
        self.contents.len()
    }

    /// One pixel, row `y`, column `x`.
    pub fn pixel(&self, x: usize, y: usize) -> (p: u8)
        requires
            y < self@.len(),
            x < self@[y as int].len(),
        ensures
            p == self@[y as int][x as int],
    {
        self.contents[y][x]
    }

    /// Truncates or zero-extends every row on the right.  On a grid with no
    /// rows this changes nothing.
    pub fn set_width(&mut self, width: usize)
        requires
            old(self).wf(),
        ensures
            final(self)@ == resize_width(old(self)@, width as nat),
            final(self).wf(),
    {
        let h = self.contents.len();
        let mut rows: Vec<Vec<u8>> = Vec::new();
        let mut i: usize = 0;
        while i < h
            invariant
                i <= h,
                h == old(self)@.len(),
                self@ == old(self)@,
                rows@.len() == i as int,
                forall|k: int|
                    0 <= k < i ==> (#[trigger] rows@[k]@) == resize_row(old(self)@[k], width as nat),
            decreases h - i,
        {
            let src = &self.contents[i];
            let mut row: Vec<u8> = Vec::new();
            let mut j: usize = 0;
            while j < width
                invariant
                    j <= width,
                    i < self@.len(),
                    src@ == self@[i as int],
                    row@ =~= resize_row(src@, j as nat),
                decreases width - j,
            {
                if j < src.len() {
                    row.push(src[j]);
                } else {
                    row.push(0u8);
                }
                proof {
                    assert(row@ =~= resize_row(src@, (j + 1) as nat));
                }
                j = j + 1;
            }
            rows.push(row);
            i = i + 1;
        }
        self.contents = rows;
        proof {
            assert(self@ =~= resize_width(old(self)@, width as nat));
        }
    }

    /// Drops rows from, or appends zero rows of the current width at, the
    /// high-index end.
    pub fn set_height(&mut self, height: usize)
        requires
            old(self).wf(),
        ensures
            final(self)@ == resize_height(old(self)@, height as nat, grid_w(old(self)@)),
            final(self).wf(),
    {
        let h = self.contents.len();
        let w = self.width();
        if height > h {
            let mut i: usize = h;
            while i < height
                invariant
                    h <= i <= height,
                    h == old(self)@.len(),
                    w == grid_w(old(self)@),
                    self@ =~= resize_height(old(self)@, i as nat, w as nat),
                decreases height - i,
            {
                let ghost pre = self@;
                proof {
                    assert(pre.len() == i);
                }
                let row = make_zero_row(w);
                self.contents.push(row);
                proof {
                    assert forall|k: int| 0 <= k < i + 1 implies self@[k] == resize_height(
                        old(self)@,
                        (i + 1) as nat,
                        w as nat,
                    )[k] by {
                        if k < i {
                            assert(self@[k] == pre[k]);
                            assert(pre[k] == resize_height(old(self)@, i as nat, w as nat)[k]);
                        } else {
                            assert(self@[k] == zero_row(w as nat));
                        }
                    }
                    assert(self@ =~= resize_height(old(self)@, (i + 1) as nat, w as nat));
                }
                i = i + 1;
            }
            proof {
                assert(self@ =~= resize_height(old(self)@, height as nat, w as nat));
            }
        } else {
            self.contents.truncate(height);
            proof {
                assert(self@ =~= resize_height(old(self)@, height as nat, w as nat));
            }
        }
    }

    /// Composites `other` onto `self` at a non-negative offset, growing
    /// `self` first so the source fits entirely; never clips.
    pub fn blit(&mut self, other: &Bitmap, position: (usize, usize))
        requires
            old(self).wf(),
            other.wf(),
            position.0 + other.spec_width() <= usize::MAX,
            position.1 + other.spec_height() <= usize::MAX,
        ensures
            final(self)@ == blit_spec(
                old(self)@,
                other@,
                position.0 as int,
                position.1 as int,
            ),
            final(self).wf(),
    {
        let (x, y) = position;
        if self.width() == 0 {
            let mut row: Vec<u8> = Vec::new();
            row.push(0u8);
            let mut c: Vec<Vec<u8>> = Vec::new();
            c.push(row);
            self.contents = c;
            proof {
                assert(self@ =~= seq![zero_row(1)]) by {
                    assert(self@[0] =~= zero_row(1));
                }
            }
        }
        proof {
            assert(self.wf());
        }
        let ghost d0 = self@;
        if other.width() + x > self.width() {
            self.set_width(other.width() + x);
            proof {
                assert(grid_w(self@) == other.spec_width() + x) by {
                    assert(self@[0].len() == other.spec_width() + x);
                }
            }
        }
        let ghost d1 = self@;
        if other.height() + y > self.height() {
            self.set_height(other.height() + y);
        }
        let ghost d2 = self@;
        let ghost target = write_rect(d2, other@, x as int, y as int);
        let oh = other.height();
        let ow = other.width();
        let dh = self.height();
        let dw = self.width();
        let mut rows: Vec<Vec<u8>> = Vec::new();
        let mut i: usize = 0;
        while i < dh
            invariant
                i <= dh,
                dh == d2.len(),
                dw == grid_w(d2),
                oh == other@.len(),
                ow == other.spec_width(),
                other.wf(),
                grid_wf(d2),
                self@ == d2,
                y + oh <= dh,
                x + ow <= dw,
                rows@.len() == i as int,
                forall|k: int| 0 <= k < i ==> (#[trigger] rows@[k]@) == target[k],
                target == write_rect(d2, other@, x as int, y as int),
            decreases dh - i,
        {
            let mut row: Vec<u8> = Vec::new();
            let mut j: usize = 0;
            while j < dw
                invariant
                    i < dh,
                    j <= dw,
                    dh == d2.len(),
                    dw == grid_w(d2),
                    oh == other@.len(),
                    ow == other.spec_width(),
                    other.wf(),
                    grid_wf(d2),
                    self@ == d2,
                    y + oh <= dh,
                    x + ow <= dw,
                    row@ =~= target[i as int].subrange(0, j as int),
                    target == write_rect(d2, other@, x as int, y as int),
                decreases dw - j,
            {
                let v = if y <= i && i < y + oh && x <= j && j < x + ow {
                    other.pixel(j - x, i - y)
                } else {
                    self.pixel(j, i)
                };
                row.push(v);
                proof {
                    assert(row@ =~= target[i as int].subrange(0, (j + 1) as int));
                }
                j = j + 1;
            }
            proof {
                assert(row@ =~= target[i as int]);
            }
            rows.push(row);
            i = i + 1;
        }
        self.contents = rows;
        proof {
            assert(self@ =~= target);
        }
    }

    /// Replaces `self` with exactly the sub-rectangle `[position,
    /// position + size)`; the caller guarantees it lies within the source.
    pub fn clip(&mut self, position: (usize, usize), size: (usize, usize))
        requires
            old(self).wf(),
            position.0 + size.0 <= old(self).spec_width(),
            position.1 + size.1 <= old(self).spec_height(),
        ensures
            final(self)@ == clip_spec(
                old(self)@,
                position.0 as int,
                position.1 as int,
                size.0 as nat,
                size.1 as nat,
            ),
            final(self).wf(),
    {
        let (x, y) = position;
        let (w, h) = size;
        let sw = self.width();
        let sh = self.height();
        let ghost src = self@;
        let ghost target = clip_spec(src, x as int, y as int, w as nat, h as nat);
        let mut rows: Vec<Vec<u8>> = Vec::new();
        let mut i: usize = 0;
        while i < h
            invariant
                i <= h,
                sw == grid_w(src),
                sh == src.len(),
                x + w <= sw,
                y + h <= sh,
                grid_wf(src),
                self@ == src,
                rows@.len() == i as int,
                forall|k: int| 0 <= k < i ==> (#[trigger] rows@[k]@) == target[k],
                target == clip_spec(src, x as int, y as int, w as nat, h as nat),
            decreases h - i,
        {
            let mut row: Vec<u8> = Vec::new();
            let mut j: usize = 0;
            while j < w
                invariant
                    i < h,
                    j <= w,
                    sw == grid_w(src),
                    sh == src.len(),
                    x + w <= sw,
                    y + h <= sh,
                    grid_wf(src),
                    self@ == src,
                    row@ =~= target[i as int].subrange(0, j as int),
                    target == clip_spec(src, x as int, y as int, w as nat, h as nat),
                decreases w - j,
            {
                let v = self.pixel(x + j, y + i);
                row.push(v);
                proof {
                    assert(row@ =~= target[i as int].subrange(0, (j + 1) as int));
                }
                j = j + 1;
            }
            proof {
                assert(row@ =~= target[i as int]);
            }
            rows.push(row);
            i = i + 1;
        }
        self.contents = rows;
        proof {
            assert(self@ =~= target);
            assert forall|k: int| 0 <= k < self@.len() implies (#[trigger] self@[k].len())
                == grid_w(self@) by {}
        }
    }

    /// Composites the part of `other` that is visible at a signed offset:
    /// only the intersection of the offset source with the current bounds
    /// of `self` is written, and the dimensions never change.
    pub fn blit_clip(&mut self, other: &Bitmap, position: (i32, i32))
        requires
            old(self).wf(),
            other.wf(),
            old(self).spec_width() <= i32::MAX,
            old(self).spec_height() <= i32::MAX,
            other.spec_width() <= i32::MAX,
            other.spec_height() <= i32::MAX,
        ensures
            final(self)@ == blit_clip_spec(
                old(self)@,
                other@,
                position.0 as int,
                position.1 as int,
            ),
            final(self).wf(),
            final(self)@.len() == old(self)@.len(),
            grid_w(final(self)@) == grid_w(old(self)@),
    {
        let x = position.0 as i64;
        let y = position.1 as i64;
        let oh = other.height() as i64;
        let ow = other.width() as i64;
        let h = self.height();
        let w = self.width();
        let ghost dst = self@;
        let ghost target = blit_clip_spec(dst, other@, x as int, y as int);
        let mut rows: Vec<Vec<u8>> = Vec::new();
        let mut i: usize = 0;
        while i < h
            invariant
                i <= h,
                h == dst.len(),
                w == grid_w(dst),
                h <= i32::MAX,
                w <= i32::MAX,
                oh == other@.len(),
                ow == other.spec_width(),
                oh <= i32::MAX,
                ow <= i32::MAX,
                x == position.0 as int,
                y == position.1 as int,
                other.wf(),
                grid_wf(dst),
                self@ == dst,
                rows@.len() == i as int,
                forall|k: int| 0 <= k < i ==> (#[trigger] rows@[k]@) == target[k],
                target == blit_clip_spec(dst, other@, x as int, y as int),
            decreases h - i,
        {
            let ii = i as i64;
            let mut row: Vec<u8> = Vec::new();
            let mut j: usize = 0;
            while j < w
                invariant
                    i < h,
                    j <= w,
                    h == dst.len(),
                    w == grid_w(dst),
                    h <= i32::MAX,
                    w <= i32::MAX,
                    oh == other@.len(),
                    ow == other.spec_width(),
                    oh <= i32::MAX,
                    ow <= i32::MAX,
                    x == position.0 as int,
                    y == position.1 as int,
                    ii == i as int,
                    other.wf(),
                    grid_wf(dst),
                    self@ == dst,
                    row@ =~= target[i as int].subrange(0, j as int),
                    target == blit_clip_spec(dst, other@, x as int, y as int),
                decreases w - j,
            {
                let jj = j as i64;
                let v = if ii >= y && ii < y + oh && jj >= x && jj < x + ow {
                    proof {
                        assert(other@[ii - y].len() == ow);
                    }
                    other.pixel((jj - x) as usize, (ii - y) as usize)
                } else {
                    self.pixel(j, i)
                };
                row.push(v);
                proof {
                    assert(row@ =~= target[i as int].subrange(0, (j + 1) as int));
                }
                j = j + 1;
            }
            proof {
                assert(row@ =~= target[i as int]);
            }
            rows.push(row);
            i = i + 1;
        }
        self.contents = rows;
        proof {
            assert(self@ =~= target);
            assert forall|k: int| 0 <= k < self@.len() implies (#[trigger] self@[k].len()) == grid_w(
                self@,
            ) by {
                assert(self@[k].len() == dst[k].len());
                assert(dst[k].len() == grid_w(dst));
                if self@.len() > 0 {
                    assert(self@[0].len() == dst[0].len());
                }
            }
            assert(grid_w(self@) == grid_w(dst)) by {
                if dst.len() > 0 {
                    assert(self@[0].len() == dst[0].len());
                }
            }
        }
    }

    /// A new surface with width and height swapped: rotated a quarter turn
    /// in the given direction.
    pub fn rotate(&self, dir: Direction) -> (r: Bitmap)
        requires
            self.wf(),
        ensures
            r@ == match dir {
                Direction::Left => rotate_left_spec(self@),
                Direction::Right => rotate_right_spec(self@),
            },
            r.wf(),
    {
        let w = self.width();
        let h = self.height();
        let ghost src = self@;
        let ghost target = match dir {
            Direction::Left => rotate_left_spec(src),
            Direction::Right => rotate_right_spec(src),
        };
        let mut rows: Vec<Vec<u8>> = Vec::new();
        let mut i: usize = 0;
        while i < w
            invariant
                i <= w,
                w == grid_w(src),
                h == src.len(),
                grid_wf(src),
                self@ == src,
                rows@.len() == i as int,
                forall|k: int| 0 <= k < i ==> (#[trigger] rows@[k]@) == target[k],
                target == match dir {
                    Direction::Left => rotate_left_spec(src),
                    Direction::Right => rotate_right_spec(src),
                },
            decreases w - i,
        {
            let mut row: Vec<u8> = Vec::new();
            let mut j: usize = 0;
            while j < h
                invariant
                    i < w,
                    j <= h,
                    w == grid_w(src),
                    h == src.len(),
                    grid_wf(src),
                    self@ == src,
                    row@ =~= target[i as int].subrange(0, j as int),
                    target == match dir {
                        Direction::Left => rotate_left_spec(src),
                        Direction::Right => rotate_right_spec(src),
                    },
                decreases h - j,
            {
                let v = match dir {
                    Direction::Left => self.pixel(w - 1 - i, j),
                    Direction::Right => self.pixel(i, h - 1 - j),
                };
                row.push(v);
                proof {
                    assert(row@ =~= target[i as int].subrange(0, (j + 1) as int));
                }
                j = j + 1;
            }
            proof {
                assert(row@ =~= target[i as int]);
            }
            rows.push(row);
            i = i + 1;
        }
        let r = Bitmap { contents: rows };
        proof {
            assert(r@ =~= target);
            assert forall|k: int| 0 <= k < r@.len() implies (#[trigger] r@[k].len()) == grid_w(r@)
                by {}
        }
        r
    }
}

/// A row of `w` set pixels.
pub open spec fn ones_row(w: nat) -> Seq<u8> {
    Seq::new(w, |j: int| 1u8)
}

/// `g` with row `i` replaced by set pixels.
pub open spec fn fill_row_spec(g: Seq<Seq<u8>>, i: int) -> Seq<Seq<u8>> {
    Seq::new(g.len(), |k: int| if k == i { ones_row(g[k].len()) } else { g[k] })
}

/// `g` with column `j` replaced by set pixels.
pub open spec fn fill_col_spec(g: Seq<Seq<u8>>, j: int) -> Seq<Seq<u8>> {
    Seq::new(
        g.len(),
        |k: int| Seq::new(g[k].len(), |c: int| if c == j { 1u8 } else { g[k][c] }),
    )
}

/// Edges along which [`with_border`] draws a one-pixel line.
#[allow(unused)]
pub enum BorderStyle {
    Top,
    Bottom,
    Left,
    Right,
    All,
}

/// The result of bordering along one edge with effective offset `p`
/// (`p >= 1`): the grid grows by `p` rows or columns away from that edge,
/// the original content keeps its place relative to the opposite edge, and
/// the outermost line of the grown grid is set.
pub open spec fn border_edge_spec(g: Seq<Seq<u8>>, style: BorderStyle, p: nat) -> Seq<Seq<u8>>
    decreases style_rank(style),
{
    match style {
        BorderStyle::Top => fill_row_spec(
            blit_spec(zero_grid(grid_w(g), g.len() + p), g, 0, p as int),
            0,
        ),
        BorderStyle::Bottom => {
            let grown = blit_spec(zero_grid(grid_w(g), g.len() + p), g, 0, 0);
            fill_row_spec(grown, grown.len() - 1)
        },
        BorderStyle::Left => fill_col_spec(
            blit_spec(zero_grid(grid_w(g) + p, g.len()), g, p as int, 0),
            0,
        ),
        BorderStyle::Right => {
            let grown = blit_spec(zero_grid(grid_w(g) + p, g.len()), g, 0, 0);
            fill_col_spec(grown, grid_w(grown) - 1)
        },
        BorderStyle::All => border_edge_spec(
            border_edge_spec(
                border_edge_spec(border_edge_spec(g, BorderStyle::Top, p), BorderStyle::Bottom, p),
                BorderStyle::Left,
                p,
            ),
            BorderStyle::Right,
            p,
        ),
    }
}

fn make_ones_row(w: usize) -> (r: Vec<u8>)
    ensures
        r@ == ones_row(w as nat),
{
    let mut row: Vec<u8> = Vec::new();
    let mut j: usize = 0;
    while j < w
        invariant
            j <= w,
            row@ =~= ones_row(j as nat).subrange(0, j as int),
            row@.len() == j as int,
            forall|c: int| 0 <= c < j ==> (#[trigger] row@[c]) == 1u8,
        decreases w - j,
    {
        row.push(1u8);
        j = j + 1;
    }
    proof {
        assert(row@ =~= ones_row(w as nat));
    }
    row
}

impl Bitmap {
    fn copy_row(&self, i: usize) -> (r: Vec<u8>)
        requires
            i < self@.len(),
        ensures
            r@ == self@[i as int],
    {
        let w = self.contents[i].len();
        let mut row: Vec<u8> = Vec::new();
        let mut j: usize = 0;
        while j < w
            invariant
                j <= w,
                i < self@.len(),
                w == self@[i as int].len(),
                row@ =~= self@[i as int].subrange(0, j as int),
            decreases w - j,
        {
            let v = self.pixel(j, i);
            row.push(v);
            proof {
                assert(row@ =~= self@[i as int].subrange(0, (j + 1) as int));
            }
            j = j + 1;
        }
        proof {
            assert(row@ =~= self@[i as int]);
        }
        row
    }

    fn fill_row(&mut self, i: usize)
        requires
            old(self).wf(),
            i < old(self)@.len(),
        ensures
            final(self)@ == fill_row_spec(old(self)@, i as int),
            final(self).wf(),
    {
        let ghost src = self@;
        let ghost target = fill_row_spec(src, i as int);
        let h = self.contents.len();
        let mut rows: Vec<Vec<u8>> = Vec::new();
        let mut k: usize = 0;
        while k < h
            invariant
                k <= h,
                h == src.len(),
                i < src.len(),
                grid_wf(src),
                self@ == src,
                rows@.len() == k as int,
                forall|m: int| 0 <= m < k ==> (#[trigger] rows@[m]@) == target[m],
                target == fill_row_spec(src, i as int),
            decreases h - k,
        {
            let row = if k == i {
                let w = self.contents[i].len();
                make_ones_row(w)
            } else {
                self.copy_row(k)
            };
            proof {
                assert(row@ == target[k as int]);
            }
            rows.push(row);
            k = k + 1;
        }
        self.contents = rows;
        proof {
            assert(self@ =~= target);
            assert forall|m: int| 0 <= m < self@.len() implies (#[trigger] self@[m].len())
                == grid_w(self@) by {
                assert(target[m].len() == src[m].len());
                if self@.len() > 0 {
                    assert(target[0].len() == src[0].len());
                }
            }
        }
    }

    fn fill_col(&mut self, j: usize)
        requires
            old(self).wf(),
            j < grid_w(old(self)@),
        ensures
            final(self)@ == fill_col_spec(old(self)@, j as int),
            final(self).wf(),
    {
        let ghost src = self@;
        let ghost target = fill_col_spec(src, j as int);
        let h = self.contents.len();
        let mut rows: Vec<Vec<u8>> = Vec::new();
        let mut k: usize = 0;
        while k < h
            invariant
                k <= h,
                h == src.len(),
                j < grid_w(src),
                grid_wf(src),
                self@ == src,
                rows@.len() == k as int,
                forall|m: int| 0 <= m < k ==> (#[trigger] rows@[m]@) == target[m],
                target == fill_col_spec(src, j as int),
            decreases h - k,
        {
            let w = self.contents[k].len();
            let mut row: Vec<u8> = Vec::new();
            let mut c: usize = 0;
            while c < w
                invariant
                    k < h,
                    c <= w,
                    h == src.len(),
                    j < grid_w(src),
                    grid_wf(src),
                    self@ == src,
                    w == src[k as int].len(),
                    row@ =~= target[k as int].subrange(0, c as int),
                    target == fill_col_spec(src, j as int),
                decreases w - c,
            {
                let v = if c == j {
                    1u8
                } else {
                    self.pixel(c, k)
                };
                row.push(v);
                proof {
                    assert(row@ =~= target[k as int].subrange(0, (c + 1) as int));
                }
                c = c + 1;
            }
            proof {
                assert(row@ =~= target[k as int]);
            }
            rows.push(row);
            k = k + 1;
        }
        self.contents = rows;
        proof {
            assert(self@ =~= target);
            assert forall|m: int| 0 <= m < self@.len() implies (#[trigger] self@[m].len())
                == grid_w(self@) by {
                assert(target[m].len() == src[m].len());
                if self@.len() > 0 {
                    assert(target[0].len() == src[0].len());
                }
            }
        }
    }
}

/// Room the grown grid needs: a single edge adds `p` once, `All` adds `p`
/// on each side of both axes.
pub open spec fn border_room_ok(g: Seq<Seq<u8>>, style: BorderStyle, p: nat) -> bool {
    match style {
        BorderStyle::Top => g.len() + p <= usize::MAX,
        BorderStyle::Bottom => g.len() + p <= usize::MAX,
        BorderStyle::Left => grid_w(g) + p <= usize::MAX,
        BorderStyle::Right => grid_w(g) + p <= usize::MAX,
        BorderStyle::All => g.len() + 2 * p < usize::MAX && grid_w(g) + 2 * p < usize::MAX,
    }
}

pub open spec fn style_rank(style: BorderStyle) -> int {
    match style {
        BorderStyle::All => 1,
        _ => 0,
    }
}

fn with_border_edge(bitmap: Bitmap, style: BorderStyle, p: usize) -> (r: Bitmap)
    requires
        bitmap.wf(),
        1 <= p,
        border_room_ok(bitmap@, style, p as nat),
    ensures
        r@ == border_edge_spec(bitmap@, style, p as nat),
        r.wf(),
    decreases style_rank(style),
{
    match style {
        BorderStyle::Top => {
            let mut top_added = Bitmap::new(bitmap.width(), bitmap.height() + p);
            top_added.blit(&bitmap, (0, p));
            top_added.fill_row(0);
            top_added
        },
        BorderStyle::Bottom => {
            let mut bottom_added = Bitmap::new(bitmap.width(), bitmap.height() + p);
            bottom_added.blit(&bitmap, (0, 0));
            let last = bottom_added.height() - 1;
            bottom_added.fill_row(last);
            bottom_added
        },
        BorderStyle::Left => {
            let mut left_added = Bitmap::new(bitmap.width() + p, bitmap.height());
            left_added.blit(&bitmap, (p, 0));
            left_added.fill_col(0);
            left_added
        },
        BorderStyle::Right => {
            let mut right_added = Bitmap::new(bitmap.width() + p, bitmap.height());
            right_added.blit(&bitmap, (0, 0));
            let last = right_added.width() - 1;
            right_added.fill_col(last);
            right_added
        },
        BorderStyle::All => {
            let ghost w0 = bitmap.spec_width();
            let ghost h0 = bitmap.spec_height();
            let top_added = with_border_edge(bitmap, BorderStyle::Top, p);
            proof {
                assert(top_added.spec_height() == h0 + p);
                assert(top_added.spec_width() <= w0 + 1);
            }
            let bottom_added = with_border_edge(top_added, BorderStyle::Bottom, p);
            proof {
                assert(bottom_added.spec_height() == h0 + 2 * p);
                assert(bottom_added.spec_width() <= w0 + 1);
            }
            let left_added = with_border_edge(bottom_added, BorderStyle::Left, p);
            proof {
                assert(left_added.spec_width() <= w0 + 1 + p);
            }
            with_border_edge(left_added, BorderStyle::Right, p)
        },
    }
}

/// A new surface with a one-pixel line of set pixels along the requested
/// edge(s), offset `padding + 1` pixels in from that edge; `All` composes
/// all four edges with the same offset.
pub fn with_border(bitmap: Bitmap, style: BorderStyle, padding: usize) -> (r: Bitmap)
    requires
        bitmap.wf(),
        padding + 1 < usize::MAX,
        border_room_ok(bitmap@, style, (padding + 1) as nat),
    ensures
        r@ == border_edge_spec(bitmap@, style, (padding + 1) as nat),
        r.wf(),
{
    with_border_edge(bitmap, style, padding + 1)
}

/// Clipped compositing agrees with plain compositing whenever nothing
/// would be clipped: for a non-empty destination and an offset that keeps
/// the whole source inside the destination's bounds, `blit_clip` and
/// `blit` produce the same grid.
pub proof fn lemma_blit_clip_within(dst: Seq<Seq<u8>>, src: Seq<Seq<u8>>, x: int, y: int)
    requires
        grid_wf(dst),
        grid_wf(src),
        grid_w(dst) > 0,
        0 <= x,
        0 <= y,
        x + grid_w(src) <= grid_w(dst),
        y + src.len() <= dst.len(),
    ensures
        blit_clip_spec(dst, src, x, y) == blit_spec(dst, src, x, y),
{
    let a = blit_clip_spec(dst, src, x, y);
    let b = blit_spec(dst, src, x, y);
    assert forall|i: int| 0 <= i < a.len() implies a[i] =~= b[i] by {
        assert(dst[i].len() == grid_w(dst));
        assert forall|j: int| 0 <= j < dst[i].len() implies a[i][j] == b[i][j] by {
            if y <= i < y + src.len() {
                assert(src[i - y].len() == grid_w(src));
            }
        }
    }
    assert(a =~= b);
}

/// Round trip: clipping the sub-rectangle at `(x, y)` of size `(w, h)` out
/// of `g` and compositing it back at `(x, y)` onto any canvas with the
/// dimensions of `g` reproduces that sub-rectangle of `g` exactly.
pub proof fn lemma_clip_blit_round_trip(
    g: Seq<Seq<u8>>,
    canvas: Seq<Seq<u8>>,
    x: int,
    y: int,
    w: nat,
    h: nat,
)
    requires
        grid_wf(g),
        grid_wf(canvas),
        canvas.len() == g.len(),
        grid_w(canvas) == grid_w(g),
        0 <= x,
        0 <= y,
        x + w <= grid_w(g),
        y + h <= g.len(),
    ensures
        forall|i: int, j: int|
            0 <= i < h && 0 <= j < w ==> #[trigger] blit_spec(canvas, clip_spec(g, x, y, w, h), x, y)[y
                + i][x + j] == g[y + i][x + j],
{
    let part = clip_spec(g, x, y, w, h);
    let out = blit_spec(canvas, part, x, y);
    assert forall|i: int, j: int| 0 <= i < h && 0 <= j < w implies #[trigger] out[y + i][x + j]
        == g[y + i][x + j] by {
        assert(grid_w(canvas) > 0);
        assert(canvas[y + i].len() == grid_w(canvas));
        assert(part[i].len() == w);
        assert(out[y + i][x + j] == part[i][j]);
    }
}

/// Boundary: when the offset source lies entirely outside the
/// destination's bounds, clipped compositing changes nothing.
pub proof fn lemma_blit_clip_outside(dst: Seq<Seq<u8>>, src: Seq<Seq<u8>>, x: int, y: int)
    requires
        grid_wf(dst),
        y + src.len() <= 0 || y >= dst.len() || x + grid_w(src) <= 0 || x >= grid_w(dst),
    ensures
        blit_clip_spec(dst, src, x, y) == dst,
{
    let a = blit_clip_spec(dst, src, x, y);
    assert forall|i: int| 0 <= i < a.len() implies a[i] =~= dst[i] by {
        assert(dst[i].len() == grid_w(dst));
    }
    assert(a =~= dst);
}

/// What [`Bitmap::blit_clip`] leaves in the destination: the dimensions of
/// `dst`, with the pixels where the offset source overlaps `dst` replaced
/// by the source.
pub open spec fn blit_clip_spec(dst: Seq<Seq<u8>>, src: Seq<Seq<u8>>, x: int, y: int) -> Seq<
    Seq<u8>,
> {
    Seq::new(
        dst.len(),
        |i: int|
            Seq::new(
                dst[i].len(),
                |j: int|
                    if y <= i < y + src.len() && x <= j < x + grid_w(src) {
                        src[i - y][j - x]
                    } else {
                        dst[i][j]
                    },
            ),
    )
}

} // verus!

