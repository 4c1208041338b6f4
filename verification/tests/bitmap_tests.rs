use piso::bitmap::{with_border, Bitmap, BorderStyle, Direction};

fn rows(b: &Bitmap) -> Vec<Vec<u8>> {
    let mut out = Vec::new();
    for y in 0..b.height() {
        let mut row = Vec::new();
        for x in 0..b.width() {
            row.push(b.pixel(x, y));
        }
        out.push(row);
    }
    out
}

#[test]
fn test_clip() {
    let bitmap = Bitmap::from_slice(&[
        &[1, 1, 1, 1, 1],
        &[1, 0, 0, 0, 1],
        &[1, 0, 0, 0, 1],
        &[1, 0, 0, 0, 1],
        &[1, 1, 1, 1, 1],
    ]);

    let zeros = Bitmap::from_slice(&[&[0, 0, 0], &[0, 0, 0], &[0, 0, 0]]);

    let mut clipped = bitmap.clone();
    clipped.clip((1, 1), (3, 3));
    assert_eq!(clipped, zeros);

    let mut clipped = bitmap.clone();
    clipped.clip((0, 0), (3, 3));
    assert_eq!(
        clipped,
        Bitmap::from_slice(&[&[1, 1, 1], &[1, 0, 0], &[1, 0, 0]])
    );
}

#[test]
fn test_blit_clip() {
    let ones = Bitmap::from_slice(&[
        &[1, 1, 1, 1, 1],
        &[1, 1, 1, 1, 1],
        &[1, 1, 1, 1, 1],
        &[1, 1, 1, 1, 1],
        &[1, 1, 1, 1, 1],
    ]);

    let zeros = Bitmap::from_slice(&[&[0, 0, 0, 0], &[0, 0, 0, 0], &[0, 0, 0, 0], &[0, 0, 0, 0]]);

    let mut bitmap = zeros.clone();
    bitmap.blit_clip(&ones, (0, -4));
    assert_eq!(
        bitmap,
        Bitmap::from_slice(&[&[1, 1, 1, 1], &[0, 0, 0, 0], &[0, 0, 0, 0], &[0, 0, 0, 0]])
    );

    let mut bitmap = zeros.clone();
    bitmap.blit_clip(&ones, (0, 10));
    assert_eq!(bitmap, zeros);
}

#[test]
fn blit_grows_and_overwrites() {
    let mut base = Bitmap::new(2, 2);
    let src = Bitmap::from_slice(&[&[1, 1], &[1, 1]]);
    base.blit(&src, (1, 1));
    assert_eq!(base.width(), 3);
    assert_eq!(base.height(), 3);
    assert_eq!(base.pixel(0, 0), 0);
    assert_eq!(base.pixel(1, 1), 1);
    assert_eq!(base.pixel(2, 2), 1);
}

#[test]
fn blit_bootstraps_empty_destination() {
    let mut base = Bitmap::new(0, 0);
    let src = Bitmap::from_slice(&[&[1]]);
    base.blit(&src, (0, 0));
    assert_eq!(base.width(), 1);
    assert_eq!(base.height(), 1);
    assert_eq!(base.pixel(0, 0), 1);
}

#[test]
fn set_width_and_height_keep_content() {
    let mut b = Bitmap::from_slice(&[&[1, 2], &[3, 4]]);
    b.set_width(3);
    assert_eq!(b.width(), 3);
    assert_eq!(b.pixel(2, 0), 0);
    assert_eq!(b.pixel(0, 0), 1);
    b.set_height(1);
    assert_eq!(b.height(), 1);
    assert_eq!(b.pixel(1, 0), 2);
    b.set_width(1);
    assert_eq!(b.width(), 1);
}

#[test]
fn rotate_left_and_right() {
    let b = Bitmap::from_slice(&[&[1, 2], &[3, 4]]);
    // left: pixel (x, y) lands at (y, width - x - 1)
    let l = b.rotate(Direction::Left);
    assert_eq!(rows(&l), vec![vec![2, 4], vec![1, 3]]);
    let r = b.rotate(Direction::Right);
    assert_eq!(rows(&r), vec![vec![3, 1], vec![4, 2]]);
}

#[test]
fn border_top_adds_line() {
    let b = Bitmap::from_slice(&[&[0, 0, 0]]);
    let t = with_border(b, BorderStyle::Top, 1);
    // grows by padding + 1 rows; row zero is fully set
    assert_eq!(t.height(), 3);
    assert_eq!(rows(&t)[0], vec![1, 1, 1]);
    assert_eq!(rows(&t)[1], vec![0, 0, 0]);
}

#[test]
fn border_all_composes_every_edge() {
    let b = Bitmap::from_slice(&[&[0]]);
    let t = with_border(b, BorderStyle::All, 0);
    assert_eq!(t.width(), 3);
    assert_eq!(t.height(), 3);
    let g = rows(&t);
    assert_eq!(g[0], vec![1, 1, 1]);
    assert_eq!(g[2], vec![1, 1, 1]);
    assert_eq!(g[1][0], 1);
    assert_eq!(g[1][2], 1);
}

#[test]
fn clipped_compositing_matches_plain_when_inside() {
    let src = Bitmap::from_slice(&[&[1, 0], &[0, 1]]);
    let base = Bitmap::from_slice(&[
        &[0, 0, 0, 0],
        &[0, 0, 0, 0],
        &[0, 0, 0, 0],
        &[0, 0, 0, 0],
    ]);
    let mut a = base.clone();
    a.blit_clip(&src, (1, 1));
    let mut b = base.clone();
    b.blit(&src, (1, 1));
    assert_eq!(a, b);
}

#[test]
fn clip_then_blit_round_trip() {
    let original = Bitmap::from_slice(&[
        &[1, 2, 3, 4],
        &[5, 6, 7, 8],
        &[9, 10, 11, 12],
        &[13, 14, 15, 16],
    ]);
    let mut part = original.clone();
    part.clip((1, 1), (2, 2));
    let mut canvas = Bitmap::new(4, 4);
    canvas.blit(&part, (1, 1));
    for i in 0..2 {
        for j in 0..2 {
            assert_eq!(canvas.pixel(1 + j, 1 + i), original.pixel(1 + j, 1 + i));
        }
    }
}

#[test]
fn offscreen_source_changes_nothing() {
    let src = Bitmap::from_slice(&[&[1, 1], &[1, 1]]);
    let base = Bitmap::from_slice(&[&[0, 0], &[0, 0]]);
    let mut b = base.clone();
    b.blit_clip(&src, (0, -2));
    assert_eq!(b, base);
    let mut b = base.clone();
    b.blit_clip(&src, (-2, 0));
    assert_eq!(b, base);
    let mut b = base.clone();
    b.blit_clip(&src, (2, 0));
    assert_eq!(b, base);
}
