use crate::bitmap::Bitmap;
use vstd::prelude::*;
use vstd::string::StrSliceExecFns;

verus! {

/// Glyph cells are five pixels wide and one blank column apart.
pub open spec fn cell_width() -> nat {
    6
}

/// Rendered text is eight pixel rows tall.
pub open spec fn text_height() -> nat {
    8
}

/// One pixel of the built-in glyph for `c`: a fixed pattern derived from
/// the character's code, the same on every call and every machine.
pub open spec fn glyph_pixel(c: char, x: int, y: int) -> u8 {
    if (c as u32) / bit_weight(((y * 5 + x) % 8) as nat) % 2 == 1 {
        1u8
    } else {
        0u8
    }
}

/// `2^k` for `k < 8`.
pub open spec fn bit_weight(k: nat) -> u32 {
    if k == 0 {
        1u32
    } else if k == 1 {
        2u32
    } else if k == 2 {
        4u32
    } else if k == 3 {
        8u32
    } else if k == 4 {
        16u32
    } else if k == 5 {
        32u32
    } else if k == 6 {
        64u32
    } else {
        128u32
    }
}

/// The pixel grid of a rendered text: eight rows, six columns per
/// character (five glyph columns and one blank separator column).
pub open spec fn text_grid(s: Seq<char>) -> Seq<Seq<u8>> {
    Seq::new(
        text_height(),
        |y: int|
            Seq::new(
                s.len() * cell_width(),
                |x: int|
                    if x % 6 < 5 {
                        glyph_pixel(s[x / 6], x % 6, y)
                    } else {
                        0u8
                    },
            ),
    )
}

fn bit_weight_exec(k: u32) -> (r: u32)
    requires
        k < 8,
    ensures
        r == bit_weight(k as nat),
        r >= 1,
{
    match k {
        0 => 1u32,
        1 => 2u32,
        2 => 4u32,
        3 => 8u32,
        4 => 16u32,
        5 => 32u32,
        6 => 64u32,
        _ => 128u32,
    }
}

fn glyph_pixel_exec(c: char, x: usize, y: usize) -> (p: u8)
    requires
        x < 5,
        y < 8,
    ensures
        p == glyph_pixel(c, x as int, y as int),
{
    let k: u32 = ((y * 5 + x) % 8) as u32;
    let w = bit_weight_exec(k);
    if (c as u32) / w % 2 == 1 {
        1u8
    } else {
        0u8
    }
}

/// Rasterizes a text into a pixel grid, eight rows tall and six columns
/// per character.
pub fn render_text(text: &str) -> (r: Bitmap)
    requires
        text@.len() * 6 <= usize::MAX,
    ensures
        r@ == text_grid(text@),
        r.wf(),
{
    let n = text.unicode_len();
    let w = n * 6;
    let ghost target = text_grid(text@);
    let mut rows: Vec<Vec<u8>> = Vec::new();
    let mut y: usize = 0;
    while y < 8
        invariant
            y <= 8,
            n == text@.len(),
            w == n * 6,
            rows@.len() == y as int,
            forall|k: int| 0 <= k < y ==> (#[trigger] rows@[k]@) == target[k],
            target == text_grid(text@),
        decreases 8 - y,
    {
        let mut row: Vec<u8> = Vec::new();
        let mut x: usize = 0;
        while x < w
            invariant
                y < 8,
                x <= w,
                n == text@.len(),
                w == n * 6,
                row@ =~= target[y as int].subrange(0, x as int),
                target == text_grid(text@),
            decreases w - x,
        {
            let v = if x % 6 < 5 {
                let c = text.get_char(x / 6);
                glyph_pixel_exec(c, x % 6, y)
            } else {
                0u8
            };
            row.push(v);
            proof {
                assert(row@ =~= target[y as int].subrange(0, (x + 1) as int));
            }
            x = x + 1;
        }
        proof {
            assert(row@ =~= target[y as int]);
        }
        rows.push(row);
        y = y + 1;
    }
    proof {
        assert(forall|k: int| 0 <= k < target.len() ==> (#[trigger] target[k].len()) == text@.len()
            * 6);
    }
    let r = Bitmap::from_rows(rows);
    proof {
        assert(r@ =~= target);
    }
    r
}

/// What a label shows: the text, capped at a thousand characters.
pub open spec fn label_grid(s: Seq<char>) -> Seq<Seq<u8>> {
    if s.len() <= 1000 {
        text_grid(s)
    } else {
        text_grid(s.take(1000))
    }
}

/// Rasterizes a label: the text, capped at a thousand characters.
pub fn label(text: &str) -> (r: Bitmap)
    ensures
        r@ == label_grid(text@),
        r.wf(),
        r@.len() == 8,
        crate::bitmap::grid_w(r@) <= 6000,
{
    let n = text.unicode_len();
    if n <= 1000 {
        let r = render_text(text);
        proof {
            assert(crate::bitmap::grid_w(r@) == text@.len() * 6);
        }
        r
    } else {
        let t = text.substring_char(0, 1000);
        let r = render_text(t);
        proof {
            assert(crate::bitmap::grid_w(r@) == 6000);
        }
        r
    }
}

/// The focus marker: a small right-pointing triangle, five pixels square.
pub open spec fn arrow_grid() -> Seq<Seq<u8>> {
    Seq::new(
        5,
        |y: int|
            Seq::new(
                5,
                |x: int|
                    if x <= (if y <= 2 {
                        y
                    } else {
                        4 - y
                    }) {
                        1u8
                    } else {
                        0u8
                    },
            ),
    )
}

/// The mounted marker: a five-pixel square outline.
pub open spec fn square_grid() -> Seq<Seq<u8>> {
    Seq::new(
        5,
        |y: int|
            Seq::new(
                5,
                |x: int|
                    if x == 0 || x == 4 || y == 0 || y == 4 {
                        1u8
                    } else {
                        0u8
                    },
            ),
    )
}

/// The focus marker as a surface.
pub fn arrow() -> (r: Bitmap)
    ensures
        r@ == arrow_grid(),
        r.wf(),
{
    let ghost target = arrow_grid();
    let mut rows: Vec<Vec<u8>> = Vec::new();
    let mut y: usize = 0;
    while y < 5
        invariant
            y <= 5,
            rows@.len() == y as int,
            forall|k: int| 0 <= k < y ==> (#[trigger] rows@[k]@) == target[k],
            target == arrow_grid(),
        decreases 5 - y,
    {
        let mut row: Vec<u8> = Vec::new();
        let mut x: usize = 0;
        while x < 5
            invariant
                y < 5,
                x <= 5,
                row@ =~= target[y as int].subrange(0, x as int),
                target == arrow_grid(),
            decreases 5 - x,
        {
            let lim = if y <= 2 {
                y
            } else {
                4 - y
            };
            let v = if x <= lim {
                1u8
            } else {
                0u8
            };
            row.push(v);
            proof {
                assert(row@ =~= target[y as int].subrange(0, (x + 1) as int));
            }
            x = x + 1;
        }
        proof {
            assert(row@ =~= target[y as int]);
        }
        rows.push(row);
        y = y + 1;
    }
    proof {
        assert(forall|k: int| 0 <= k < target.len() ==> (#[trigger] target[k].len()) == 5);
    }
    let r = Bitmap::from_rows(rows);
    proof {
        assert(r@ =~= target);
    }
    r
}

/// The mounted marker as a surface.
pub fn square() -> (r: Bitmap)
    ensures
        r@ == square_grid(),
        r.wf(),
{
    let ghost target = square_grid();
    let mut rows: Vec<Vec<u8>> = Vec::new();
    let mut y: usize = 0;
    while y < 5
        invariant
            y <= 5,
            rows@.len() == y as int,
            forall|k: int| 0 <= k < y ==> (#[trigger] rows@[k]@) == target[k],
            target == square_grid(),
        decreases 5 - y,
    {
        let mut row: Vec<u8> = Vec::new();
        let mut x: usize = 0;
        while x < 5
            invariant
                y < 5,
                x <= 5,
                row@ =~= target[y as int].subrange(0, x as int),
                target == square_grid(),
            decreases 5 - x,
        {
            let v = if x == 0 || x == 4 || y == 0 || y == 4 {
                1u8
            } else {
                0u8
            };
            row.push(v);
            proof {
                assert(row@ =~= target[y as int].subrange(0, (x + 1) as int));
            }
            x = x + 1;
        }
        proof {
            assert(row@ =~= target[y as int]);
        }
        rows.push(row);
        y = y + 1;
    }
    proof {
        assert(forall|k: int| 0 <= k < target.len() ==> (#[trigger] target[k].len()) == 5);
    }
    let r = Bitmap::from_rows(rows);
    proof {
        assert(r@ =~= target);
    }
    r
}

} // verus!
