use screenforme::capture::scroll_input::scroll_deltas;
use screenforme::capture::scrolling::{ScrollNext, ScrollSession, MAX_COMPOSITE_PX, MAX_FRAMES};
use screenforme::capture::stitch::{normalize, Frame, Rgba, ScrollDirection};
use screenforme::capture::CaptureError;

/// Deterministic per-pixel noise so strips match at exactly one offset.
fn noise_image(w: u32, h: u32, seed: u32) -> Frame {
    let mut f = Frame::new(w, h);
    for y in 0..h {
        for x in 0..w {
            let mut v = x.wrapping_mul(374_761_393)
                ^ y.wrapping_mul(668_265_263)
                ^ seed.wrapping_mul(2_246_822_519);
            v ^= v >> 13;
            v = v.wrapping_mul(1_274_126_177);
            f.put_pixel(
                x,
                y,
                Rgba::new((v & 0xff) as u8, ((v >> 8) & 0xff) as u8, ((v >> 16) & 0xff) as u8, 255),
            );
        }
    }
    f
}

fn tool_error() -> CaptureError {
    CaptureError::Tool("grab failed".to_string())
}

#[test]
fn scrolling_down_stitches_until_the_page_stops_moving() {
    let page = noise_image(160, 600, 7);
    let mut session = ScrollSession::start(&page.sub_image(0, 0, 160, 200), ScrollDirection::Down, 20);
    assert_eq!(session.frames(), 1);
    assert!(session.should_continue(false));

    let second = page.sub_image(0, 37, 160, 200);
    assert_eq!(session.step(Ok(second.copy())), Ok(ScrollNext::Continue));
    assert_eq!(session.frames(), 2);
    let third = page.sub_image(0, 80, 160, 200);
    assert_eq!(session.step(Ok(third.copy())), Ok(ScrollNext::Continue));
    assert_eq!(session.frames(), 3);

    // The same frame again: nothing moved, the end of the page.
    assert_eq!(session.step(Ok(third)), Ok(ScrollNext::Done));
    assert_eq!(session.frames(), 3);

    let image = session.finish();
    assert_eq!(image.dimensions(), (160, 280));
    assert_eq!(image, page.sub_image(0, 0, 160, 280));
}

#[test]
fn scrolling_up_stitches_through_normalize() {
    let page = noise_image(160, 600, 13);
    let first = page.sub_image(0, 400, 160, 200);
    let second = page.sub_image(0, 363, 160, 200);
    let mut session = ScrollSession::start(&first, ScrollDirection::Up, 20);
    assert_eq!(session.step(Ok(second)), Ok(ScrollNext::Continue));
    let image = session.finish();
    assert_eq!(image, page.sub_image(0, 363, 160, 237));
}

#[test]
fn unmatched_frames_use_the_nominal_offset() {
    let first = noise_image(160, 200, 1);
    let unrelated = noise_image(160, 200, 2);
    let mut session = ScrollSession::start(&first, ScrollDirection::Down, 25);
    assert_eq!(session.step(Ok(unrelated.copy())), Ok(ScrollNext::Continue));
    let image = session.finish();
    assert_eq!(image.dimensions(), (160, 225));
    assert_eq!(image.sub_image(0, 0, 160, 200), first);
    assert_eq!(image.sub_image(0, 200, 160, 25), unrelated.sub_image(0, 175, 160, 25));
}

#[test]
fn a_failed_first_step_fails_the_capture() {
    let first = noise_image(160, 200, 3);
    let mut session = ScrollSession::start(&first, ScrollDirection::Down, 20);
    assert_eq!(session.step(Err(tool_error())), Err(tool_error()));
    assert_eq!(session.frames(), 1);
}

#[test]
fn a_failed_later_step_keeps_the_partial_result() {
    let page = noise_image(160, 600, 5);
    let mut session = ScrollSession::start(&page.sub_image(0, 0, 160, 200), ScrollDirection::Down, 20);
    assert_eq!(session.step(Ok(page.sub_image(0, 50, 160, 200))), Ok(ScrollNext::Continue));
    assert_eq!(session.step(Err(tool_error())), Ok(ScrollNext::Done));
    assert_eq!(session.finish(), page.sub_image(0, 0, 160, 250));
}

#[test]
fn the_loop_stops_when_asked_or_at_the_frame_cap() {
    let page = noise_image(64, 1200, 9);
    let mut session = ScrollSession::start(&page.sub_image(0, 0, 64, 100), ScrollDirection::Down, 10);
    assert!(session.should_continue(false));
    assert!(!session.should_continue(true));
    let mut y = 0;
    while session.should_continue(false) {
        y += 10;
        let frame = page.sub_image(0, y, 64, 100);
        assert_eq!(session.step(Ok(frame)), Ok(ScrollNext::Continue));
    }
    assert_eq!(session.frames(), MAX_FRAMES);
    assert_eq!(session.finish().dimensions(), (64, 100 + 10 * (MAX_FRAMES - 1)));
}

#[test]
fn the_loop_stops_at_the_height_cap() {
    let tall = noise_image(8, MAX_COMPOSITE_PX, 4);
    let session = ScrollSession::start(&tall, ScrollDirection::Down, 10);
    assert!(!session.should_continue(false));
}

#[test]
fn horizontal_scrolls_are_stitched_sideways() {
    let page = noise_image(600, 160, 11);
    let first = page.sub_image(0, 0, 200, 160);
    let second = page.sub_image(37, 0, 200, 160);
    assert_eq!(normalize(&first, ScrollDirection::Right).dimensions(), (160, 200));
    let mut session = ScrollSession::start(&first, ScrollDirection::Right, 20);
    assert_eq!(session.step(Ok(second)), Ok(ScrollNext::Continue));
    assert_eq!(session.finish(), page.sub_image(0, 0, 237, 160));
}

#[test]
fn scroll_steps_post_signed_wheel_deltas() {
    assert_eq!(scroll_deltas(ScrollDirection::Down, 3), (-3, 0));
    assert_eq!(scroll_deltas(ScrollDirection::Up, 3), (3, 0));
    assert_eq!(scroll_deltas(ScrollDirection::Right, 8), (0, -8));
    assert_eq!(scroll_deltas(ScrollDirection::Left, 8), (0, 8));
    assert_eq!(scroll_deltas(ScrollDirection::Down, i32::MAX), (-i32::MAX, 0));
}
