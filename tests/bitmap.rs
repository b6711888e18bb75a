use pixbuf::bitmap::{Bitmap, RenderError};
use pixbuf::geo::{Rect2, Vector2};
use pixbuf::pixel::Pixel;

fn bitmap(w: usize, h: usize) -> Bitmap {
    match Bitmap::new(Rect2::new(w, h)) {
        Ok(bm) => bm,
        Err(e) => panic!("allocation of {}x{} failed: {:?}", w, h, e),
    }
}

fn at(bm: &Bitmap, x: usize, y: usize) -> Option<Pixel> {
    bm.pixel_at_point(Vector2::new(x, y)).copied()
}

#[test]
fn fresh_bitmap_is_black() {
    let bm = bitmap(5, 4);
    for y in 0..4 {
        for x in 0..5 {
            assert_eq!(at(&bm, x, y), Some(Pixel::new(0, 0, 0)));
        }
    }
    assert_eq!(bm.pixels().len(), 20);
    assert!(bm.to_bytes().iter().all(|b| *b == 0));
}

#[test]
fn write_then_read_round_trips() {
    let mut bm = bitmap(7, 5);
    let px = Pixel::new(12, 34, 56);
    for y in 0..5 {
        for x in 0..7 {
            match bm.pixel_at_point_mut(Vector2::new(x, y)) {
                Ok(slot) => *slot = px,
                Err(e) => panic!("in-bounds write refused: {:?}", e),
            }
            assert_eq!(at(&bm, x, y), Some(px));
        }
    }
}

#[test]
fn write_leaves_other_points_alone() {
    let mut bm = bitmap(3, 3);
    bm.draw_point(Vector2::new(1, 1), Pixel::new(9, 8, 7));
    for y in 0..3 {
        for x in 0..3 {
            let expected = if (x, y) == (1, 1) { Pixel::new(9, 8, 7) } else { Pixel::new(0, 0, 0) };
            assert_eq!(at(&bm, x, y), Some(expected));
        }
    }
    // the point that would alias (1, 1) if rows wrapped
    assert_eq!(at(&bm, 4, 0), None);
}

#[test]
fn one_past_end_is_refused_for_writing() {
    let mut bm = bitmap(4, 3);
    assert_eq!(bm.pixel_at_point_mut(Vector2::new(4, 0)).err(), Some(RenderError::DrawOOB));
    assert_eq!(bm.pixel_at_point_mut(Vector2::new(0, 3)).err(), Some(RenderError::DrawOOB));
    assert_eq!(bm.pixel_at_point_mut(Vector2::new(4, 3)).err(), Some(RenderError::DrawOOB));
    let mut row = bitmap(4, 1);
    // index 4 == width * height
    assert_eq!(row.pixel_at_point_mut(Vector2::new(4, 0)).err(), Some(RenderError::DrawOOB));
    assert!(row.pixel_at_point_mut(Vector2::new(3, 0)).is_ok());
}

#[test]
fn out_of_range_read_is_none() {
    let bm = bitmap(4, 3);
    assert_eq!(at(&bm, 4, 0), None);
    assert_eq!(at(&bm, 0, 3), None);
    assert_eq!(at(&bm, usize::MAX, usize::MAX), None);
    assert_eq!(at(&bm, 3, 2), Some(Pixel::new(0, 0, 0)));
}

#[test]
fn empty_bitmap_has_no_pixels() {
    let mut bm = bitmap(0, 5);
    assert_eq!(at(&bm, 0, 0), None);
    assert_eq!(bm.pixel_at_point_mut(Vector2::new(0, 0)).err(), Some(RenderError::DrawOOB));
    bm.draw_rect(Vector2::new(0, 0), Rect2::new(3, 3), Pixel::new(1, 1, 1));
    assert!(bm.to_bytes().is_empty());
}

#[test]
fn draw_point_then_read() {
    let mut bm = bitmap(4, 3);
    bm.draw_point(Vector2::new(0, 0), Pixel::from((255, 0, 0)));
    assert_eq!(at(&bm, 0, 0), Some(Pixel::new(255, 0, 0)));
    assert_eq!(at(&bm, 3, 2), Some(Pixel::new(0, 0, 0)));
}

#[test]
fn draw_point_outside_is_silent() {
    let mut bm = bitmap(4, 3);
    bm.draw_point(Vector2::new(4, 0), Pixel::new(1, 2, 3));
    bm.draw_point(Vector2::new(0, 3), Pixel::new(1, 2, 3));
    assert!(bm.pixels().iter().all(|p| *p == Pixel::new(0, 0, 0)));
}

#[test]
fn draw_rect_fills_inclusive_box() {
    let mut bm = bitmap(10, 10);
    let px = Pixel::new(10, 20, 30);
    bm.draw_rect(Vector2::new(2, 2), Rect2::new(3, 3), px);
    let mut painted = 0;
    for y in 0..10 {
        for x in 0..10 {
            let inside = (2..=5).contains(&x) && (2..=5).contains(&y);
            if at(&bm, x, y) == Some(px) {
                painted += 1;
            }
            let expected = if inside { px } else { Pixel::new(0, 0, 0) };
            assert_eq!(at(&bm, x, y), Some(expected), "at ({}, {})", x, y);
        }
    }
    assert_eq!(painted, 16);
    assert_eq!(at(&bm, 1, 1), Some(Pixel::new(0, 0, 0)));
    assert_eq!(at(&bm, 6, 6), Some(Pixel::new(0, 0, 0)));
    assert_eq!(at(&bm, 7, 7), Some(Pixel::new(0, 0, 0)));
}

#[test]
fn draw_rect_clips_at_the_edge() {
    let mut bm = bitmap(5, 4);
    let px = Pixel::new(1, 2, 3);
    bm.draw_rect(Vector2::new(3, 2), Rect2::new(10, 10), px);
    for y in 0..4 {
        for x in 0..5 {
            let expected = if x >= 3 && y >= 2 { px } else { Pixel::new(0, 0, 0) };
            assert_eq!(at(&bm, x, y), Some(expected), "at ({}, {})", x, y);
        }
    }
}

#[test]
fn draw_rect_with_huge_extent_clips() {
    let mut bm = bitmap(3, 3);
    let px = Pixel::new(4, 5, 6);
    bm.draw_rect(Vector2::new(1, 0), Rect2::new(usize::MAX, usize::MAX), px);
    bm.draw_rect(Vector2::new(usize::MAX, usize::MAX), Rect2::new(usize::MAX, 2), Pixel::new(9, 9, 9));
    for y in 0..3 {
        for x in 0..3 {
            let expected = if x >= 1 { px } else { Pixel::new(0, 0, 0) };
            assert_eq!(at(&bm, x, y), Some(expected));
        }
    }
}

#[test]
fn draw_rect_of_zero_size_paints_one_point() {
    let mut bm = bitmap(3, 3);
    bm.draw_rect(Vector2::new(1, 2), Rect2::new(0, 0), Pixel::new(7, 7, 7));
    let painted = bm.pixels().iter().filter(|p| **p == Pixel::new(7, 7, 7)).count();
    assert_eq!(painted, 1);
    assert_eq!(at(&bm, 1, 2), Some(Pixel::new(7, 7, 7)));
}

#[test]
fn oversized_bitmap_is_a_memory_error() {
    assert_eq!(Bitmap::new(Rect2::new(usize::MAX, 2)).err(), Some(RenderError::MemoryError));
    assert_eq!(Bitmap::new(Rect2::new(usize::MAX / 4 + 1, 1)).err(), Some(RenderError::MemoryError));
    assert_eq!(Bitmap::new(Rect2::new(1 << 40, 1 << 40)).err(), Some(RenderError::MemoryError));
}

#[test]
fn bytes_are_bgrx_row_major() {
    let mut bm = bitmap(2, 2);
    bm.draw_point(Vector2::new(1, 0), Pixel::new(0x11, 0x22, 0x33));
    bm.draw_point(Vector2::new(0, 1), Pixel::new(0xaa, 0xbb, 0xcc));
    let bytes = bm.to_bytes();
    assert_eq!(bytes.len(), 2 * 2 * 4);
    assert_eq!(
        bytes,
        vec![0, 0, 0, 0, 0x33, 0x22, 0x11, 0, 0xcc, 0xbb, 0xaa, 0, 0, 0, 0, 0]
    );
}

#[test]
fn size_is_kept() {
    let bm = bitmap(6, 2);
    assert_eq!(bm.size(), Rect2::new(6, 2));
    assert_eq!(bm.size().area(), 12);
}

#[test]
fn many_bitmaps_created_and_dropped() {
    for i in 0..200usize {
        let mut bm = bitmap(16 + i % 5, 9);
        bm.draw_rect(Vector2::new(0, 0), Rect2::new(3, 3), Pixel::new(1, 1, 1));
        assert_eq!(at(&bm, 0, 0), Some(Pixel::new(1, 1, 1)));
    }
}

#[test]
fn moved_bitmap_keeps_contents() {
    let mut bm = bitmap(2, 2);
    bm.draw_point(Vector2::new(1, 1), Pixel::new(5, 6, 7));
    let moved = bm;
    assert_eq!(at(&moved, 1, 1), Some(Pixel::new(5, 6, 7)));
}

#[test]
fn zero_area_bitmaps_always_succeed() {
    for (w, h) in [(0, 0), (0, 7), (7, 0), (usize::MAX, 0), (0, usize::MAX)] {
        let bm = Bitmap::new(Rect2::new(w, h));
        assert!(bm.is_ok(), "{}x{} refused", w, h);
        let bm = bm.ok().unwrap();
        assert_eq!(bm.size(), Rect2::new(w, h));
        assert!(bm.pixels().is_empty());
        assert_eq!(at(&bm, 0, 0), None);
    }
}
