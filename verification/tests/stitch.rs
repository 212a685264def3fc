use screenforme::capture::stitch::{
    append_rows, denormalize, find_scroll_offset, frames_similar, max_detectable_offset, most_textured_strip, normalize, step_offset, Frame, Rgba,
    ScrollDirection,
};

/// Deterministic per-pixel noise so strips match at exactly one offset.
fn noise_image(w: u32, h: u32, seed: u32) -> Frame {
    let mut f = Frame::new(w, h);
    for y in 0..h {
        for x in 0..w {
            let mut v = x.wrapping_mul(374_761_393)
                ^ y.wrapping_mul(668_265_263)
                ^ seed.wrapping_mul(2_246_822_519);
            v ^= v >> 13;
            v = v.wrapping_mul(1_274_126_177);
            f.put_pixel(
                x,
                y,
                Rgba::new((v & 0xff) as u8, ((v >> 8) & 0xff) as u8, ((v >> 16) & 0xff) as u8, 255),
            );
        }
    }
    f
}

fn from_fn(w: u32, h: u32, pixel: impl Fn(u32, u32) -> Rgba) -> Frame {
    let mut f = Frame::new(w, h);
    for y in 0..h {
        for x in 0..w {
            f.put_pixel(x, y, pixel(x, y));
        }
    }
    f
}

/// A viewport-sized window into a taller source, like one scroll frame.
fn window(src: &Frame, x: u32, y: u32, w: u32, h: u32) -> Frame {
    src.sub_image(x, y, w, h)
}

#[test]
fn exact_offset_detected() {
    let src = noise_image(160, 600, 7);
    let prev = window(&src, 0, 0, 160, 200);
    let next = window(&src, 0, 37, 160, 200);
    assert_eq!(find_scroll_offset(&prev, &next), Some(37));
}

#[test]
fn identical_frames_offset_zero() {
    let frame = noise_image(160, 200, 3);
    assert_eq!(find_scroll_offset(&frame, &frame), Some(0));
    assert!(frames_similar(&frame, &frame));
}

#[test]
fn unrelated_frames_no_match() {
    let a = noise_image(160, 200, 1);
    let b = noise_image(160, 200, 2);
    assert_eq!(find_scroll_offset(&a, &b), None);
    assert!(!frames_similar(&a, &b));
}

#[test]
fn slightly_noisy_frames_similar() {
    let a = noise_image(160, 200, 3);
    let b = from_fn(160, 200, |x, y| {
        let p = a.get_pixel(x, y);
        Rgba::new(p.r.saturating_add(3), p.g.saturating_add(3), p.b.saturating_add(3), p.a)
    });
    assert!(frames_similar(&a, &b));
}

#[test]
fn sparse_content_scroll_not_similar() {
    let frame = |phase: u32| {
        from_fn(160, 320, |_x, y| {
            if (y + phase) % 160 < 4 {
                Rgba::new(180, 180, 180, 255)
            } else {
                Rgba::new(250, 250, 250, 255)
            }
        })
    };
    assert!(!frames_similar(&frame(0), &frame(80)));
}

#[test]
fn scrollbar_fade_still_similar() {
    let a = noise_image(800, 200, 3);
    let mut b = a.clone();
    for y in 0..200 {
        for x in 792..796 {
            b.put_pixel(x, y, Rgba::new(128, 128, 128, 255));
        }
    }
    assert!(frames_similar(&a, &b));
}

#[test]
fn dimension_mismatch_not_similar() {
    let a = noise_image(160, 200, 3);
    let b = noise_image(160, 199, 3);
    assert!(!frames_similar(&a, &b));
}

#[test]
fn append_reconstructs_source() {
    let src = noise_image(160, 600, 9);
    let prev = window(&src, 0, 0, 160, 200);
    let next = window(&src, 0, 37, 160, 200);
    let composite = append_rows(prev, &next, 37);
    assert_eq!(composite.dimensions(), (160, 237));
    assert_eq!(composite, window(&src, 0, 0, 160, 237));
}

#[test]
fn normalize_round_trips_every_direction() {
    let frame = noise_image(90, 60, 5);
    for dir in [
        ScrollDirection::Up,
        ScrollDirection::Down,
        ScrollDirection::Left,
        ScrollDirection::Right,
    ] {
        assert_eq!(denormalize(normalize(&frame, dir), dir), frame, "{dir:?}");
    }
}

#[test]
fn right_scroll_stitches_through_normalize() {
    let src = noise_image(600, 160, 11);
    let prev = window(&src, 0, 0, 200, 160);
    let next = window(&src, 37, 0, 200, 160);
    let dir = ScrollDirection::Right;
    let prev_n = normalize(&prev, dir);
    let next_n = normalize(&next, dir);
    let offset = find_scroll_offset(&prev_n, &next_n).expect("confident match");
    assert_eq!(offset, 37);
    let composite = denormalize(append_rows(prev_n, &next_n, offset), dir);
    assert_eq!(composite, window(&src, 0, 0, 237, 160));
}

#[test]
fn up_scroll_stitches_through_normalize() {
    let src = noise_image(160, 600, 13);
    let prev = window(&src, 0, 400, 160, 200);
    let next = window(&src, 0, 363, 160, 200);
    let dir = ScrollDirection::Up;
    let prev_n = normalize(&prev, dir);
    let next_n = normalize(&next, dir);
    let offset = find_scroll_offset(&prev_n, &next_n).expect("confident match");
    assert_eq!(offset, 37);
    let composite = denormalize(append_rows(prev_n, &next_n, offset), dir);
    assert_eq!(composite, window(&src, 0, 363, 160, 237));
}

#[test]
fn left_scroll_stitches_through_normalize() {
    let src = noise_image(600, 160, 17);
    let prev = window(&src, 37, 0, 200, 160);
    let next = window(&src, 0, 0, 200, 160);
    let dir = ScrollDirection::Left;
    let prev_n = normalize(&prev, dir);
    let next_n = normalize(&next, dir);
    let offset = find_scroll_offset(&prev_n, &next_n).expect("confident match");
    assert_eq!(offset, 37);
    let composite = denormalize(append_rows(prev_n, &next_n, offset), dir);
    assert_eq!(composite, window(&src, 0, 0, 237, 160));
}

fn to_rgba_image(f: &Frame) -> image::RgbaImage {
    let (w, h) = f.dimensions();
    image::RgbaImage::from_fn(w, h, |x, y| {
        let p = f.get_pixel(x, y);
        image::Rgba([p.r, p.g, p.b, p.a])
    })
}

#[test]
fn transforms_match_the_image_crate() {
    let frame = noise_image(7, 5, 21);
    let img = to_rgba_image(&frame);
    assert_eq!(to_rgba_image(&frame.rotate90()), image::imageops::rotate90(&img));
    assert_eq!(to_rgba_image(&frame.rotate270()), image::imageops::rotate270(&img));
    assert_eq!(to_rgba_image(&frame.flip_vertical()), image::imageops::flip_vertical(&img));
}

#[test]
fn append_clips_to_the_composite_width_and_blank_fills() {
    let comp = noise_image(4, 2, 1);
    let next = noise_image(2, 3, 2);
    let out = append_rows(comp.clone(), &next, 9);
    assert_eq!(out.dimensions(), (4, 5));
    assert_eq!(out.get_pixel(1, 2), next.get_pixel(1, 0));
    assert_eq!(out.get_pixel(3, 4), Rgba::new(0, 0, 0, 0));
    assert_eq!(out.get_pixel(3, 1), comp.get_pixel(3, 1));
}

#[test]
fn offset_search_needs_tall_equal_frames() {
    let a = noise_image(10, 32, 1);
    assert_eq!(find_scroll_offset(&a, &a), None);
    let b = noise_image(10, 33, 1);
    assert_eq!(find_scroll_offset(&b, &b), Some(0));
    let empty = Frame::new(0, 40);
    assert_eq!(find_scroll_offset(&empty, &empty), None);
    assert!(!frames_similar(&empty, &empty));
}

#[test]
fn step_offset_decides_end_fallback_and_offsets() {
    let src = noise_image(160, 600, 7);
    let prev = window(&src, 0, 0, 160, 200);
    let next = window(&src, 0, 37, 160, 200);
    assert_eq!(step_offset(&prev, &next, 50), Some(37));
    assert_eq!(step_offset(&prev, &prev, 50), None);
    let other = noise_image(160, 200, 99);
    assert_eq!(step_offset(&prev, &other, 50), Some(50));
    // A pinned header over different content: with texture below the header
    // the matched strip is not pinned to the header at offset 0.
    let mut pinned = other.clone();
    for y in 0..40 {
        for x in 0..160 {
            pinned.put_pixel(x, y, prev.get_pixel(x, y));
        }
    }
    assert_eq!(find_scroll_offset(&prev, &pinned), None);
    assert_eq!(step_offset(&prev, &pinned, 50), Some(50));
}

fn blank_top(mut img: Frame, rows: u32) -> Frame {
    let (w, _) = img.dimensions();
    for y in 0..rows {
        for x in 0..w {
            img.put_pixel(x, y, Rgba::new(250, 250, 250, 255));
        }
    }
    img
}

/// Whitespace between form sections used to blank the top strip, matching
/// every offset and losing the real one; the textured strip below recovers it.
#[test]
fn blank_top_strip_still_matches_exact_offset() {
    let src = blank_top(noise_image(160, 600, 21), 100);
    let prev = window(&src, 0, 0, 160, 200);
    let next = window(&src, 0, 37, 160, 200);
    assert_eq!(find_scroll_offset(&prev, &next), Some(37));
}

/// The chosen strip never lies entirely inside a blank region (strips fully
/// inside rows 0..100 start at 68 or before).
#[test]
fn textured_strip_skips_blank_region() {
    let img = blank_top(noise_image(160, 200, 23), 100);
    assert!(most_textured_strip(&img) > 68);
}

/// On an all-noise frame any candidate is fine; the start must be legal.
#[test]
fn textured_strip_is_legal_candidate() {
    let img = noise_image(160, 200, 25);
    let s = most_textured_strip(&img);
    assert!(s <= 100, "start {s} beyond h/2");
    assert_eq!(s % 16, 0, "start {s} not on the candidate stride");
    assert_eq!(most_textured_strip(&noise_image(160, 32, 1)), 0);
    assert_eq!(most_textured_strip(&Frame::new(0, 100)), 0);
}

/// A uniform frame has no texture anywhere: the first candidate wins.
#[test]
fn textured_strip_ties_keep_the_first() {
    assert_eq!(most_textured_strip(&blank_top(noise_image(40, 120, 3), 120)), 0);
}

#[test]
fn detectable_offsets_cover_half_the_frame() {
    assert_eq!(max_detectable_offset(150), 43);
    assert_eq!(max_detectable_offset(400), 168);
    assert_eq!(max_detectable_offset(2000), 968);
    assert_eq!(max_detectable_offset(50), 0);
    assert_eq!(max_detectable_offset(32), 0);
    // A page scrolled by the detectable maximum is found with any strip.
    let src = blank_top(noise_image(160, 600, 31), 60);
    let prev = window(&src, 0, 0, 160, 150);
    let next = window(&src, 0, 43, 160, 150);
    assert_eq!(find_scroll_offset(&prev, &next), Some(43));
}
