use win_screenshot::capture::{
    capture_display, capture_window, capture_window_ex, capture_window_into_bgr_buffer,
    capture_window_into_bgr_buffer_ex, capture_window_into_buffer, capture_window_into_buffer_ex,
    init_dpi_awareness, Area, Using, WSError,
};
use win_screenshot::pixel::{normalize_channel_order, Pixel};
use win_screenshot::synthetic::SyntheticAdapter;

fn px(b: u8, g: u8, r: u8) -> Pixel {
    Pixel { b, g, r, pad: 0 }
}

fn grid(w: u32, h: u32, f: impl Fn(u32, u32) -> Pixel) -> Vec<Pixel> {
    let mut v = Vec::new();
    for y in 0..h {
        for x in 0..w {
            v.push(f(x, y));
        }
    }
    v
}

fn tiny_display() -> SyntheticAdapter {
    SyntheticAdapter::new(0, 0, 1, 1, vec![px(0, 0, 0)])
}

#[test]
fn display_capture_has_virtual_display_geometry() {
    // A single-monitor virtual display with origin (0,0) and size 1920x1080.
    let content = grid(1920, 1080, |_, _| px(1, 2, 3));
    let mut a = SyntheticAdapter::new(0, 0, 1920, 1080, content);
    let buf = capture_display(&mut a).unwrap();
    assert_eq!(buf.width, 1920);
    assert_eq!(buf.height, 1080);
    assert_eq!(buf.pixels.len(), 1920 * 1080 * 4);
    // Channel order is normalized from platform BGR to RGB.
    assert_eq!(&buf.pixels[0..4], &[3, 2, 1, 0]);
    assert_eq!(a.acquires, a.releases);
}

#[test]
fn display_capture_zero_size_reports_rect_unavailable() {
    let mut a = SyntheticAdapter::new(0, 0, 0, 0, Vec::new());
    let r = capture_display(&mut a);
    assert!(matches!(r, Err(WSError::RectUnavailable)));
    assert_eq!(a.acquires, a.releases);
}

#[test]
fn display_capture_respects_virtual_origin() {
    // A virtual display whose origin is negative still reads its own
    // top-left pixel first.
    let content = grid(3, 2, |x, y| px(x as u8, y as u8, 9));
    let mut a = SyntheticAdapter::new(-5, -7, 3, 2, content);
    let buf = capture_display(&mut a).unwrap();
    assert_eq!((buf.width, buf.height), (3, 2));
    assert_eq!(&buf.pixels[0..4], &[9, 0, 0, 0]);
    // Pixel (1,0) of the display.
    assert_eq!(&buf.pixels[4..8], &[9, 0, 1, 0]);
}

#[test]
fn window_capture_buffer_is_exactly_packed() {
    let full = grid(4, 3, |_, _| px(1, 2, 3));
    let client = grid(2, 2, |_, _| px(4, 5, 6));
    let mut a = tiny_display();
    let hwnd = a.add_window(4, 3, 2, 2, full, client);
    let buf = capture_window(&mut a, hwnd).unwrap();
    assert_eq!((buf.width, buf.height), (4, 3));
    assert_eq!(buf.pixels.len(), 4 * 3 * 4);
    assert_eq!(a.acquires, a.releases);
}

#[test]
fn first_row_is_topmost_row() {
    // The top row of the source carries a marker color; it must arrive as
    // the first row of the buffer.
    let marker = px(10, 20, 30);
    let full = grid(4, 3, |_, y| if y == 0 { marker } else { px(1, 2, 3) });
    let client = grid(4, 3, |_, _| px(0, 0, 0));
    let mut a = tiny_display();
    let hwnd = a.add_window(4, 3, 4, 3, full, client);
    let buf = capture_window(&mut a, hwnd).unwrap();
    for x in 0..4usize {
        // RGB order: r, g, b, pad.
        assert_eq!(&buf.pixels[4 * x..4 * x + 4], &[30, 20, 10, 0]);
    }
    // The second row is the non-marker color.
    assert_eq!(&buf.pixels[4 * 4..4 * 4 + 4], &[3, 2, 1, 0]);
}

#[test]
fn blockcopy_full_area_is_rejected() {
    let mut a = tiny_display();
    let hwnd = a.add_window(4, 3, 2, 2, grid(4, 3, |_, _| px(0, 0, 0)), grid(2, 2, |_, _| px(0, 0, 0)));
    let r = capture_window_ex(&mut a, hwnd, Using::BitBlt, Area::Full, None, None);
    assert!(matches!(r, Err(WSError::InvalidCaptureCombination)));
    // Rejected before anything is acquired, and never silently coerced to
    // a client-only capture.
    assert_eq!(a.acquires, 0);
    assert_eq!(a.releases, 0);
}

#[test]
fn blockcopy_crop_takes_region_from_client_area() {
    // A 100x100 synthetic source; crop {x:10, y:10, w:50, h:50}.
    let client = grid(100, 100, |x, y| px(x as u8, y as u8, 7));
    let full = grid(100, 100, |_, _| px(0, 0, 0));
    let mut a = tiny_display();
    let hwnd = a.add_window(100, 100, 100, 100, full, client);
    let buf = capture_window_ex(
        &mut a,
        hwnd,
        Using::BitBlt,
        Area::ClientOnly,
        Some((10, 10)),
        Some((50, 50)),
    )
    .unwrap();
    assert_eq!((buf.width, buf.height), (50, 50));
    assert_eq!(buf.pixels.len(), 50 * 50 * 4);
    // Result pixel (0,0) equals source pixel (10,10): r=7, g=y=10, b=x=10.
    assert_eq!(&buf.pixels[0..4], &[7, 10, 10, 0]);
    // Result pixel (49,49) equals source pixel (59,59).
    let last = (49 * 50 + 49) * 4;
    assert_eq!(&buf.pixels[last..last + 4], &[7, 59, 59, 0]);
    assert_eq!(a.acquires, a.releases);
}

#[test]
fn renderrequest_crop_matches_blockcopy_crop() {
    // The two-pass render-request crop must produce the same region.
    let client = grid(100, 100, |x, y| px(x as u8, y as u8, 7));
    let full = grid(100, 100, |_, _| px(0, 0, 0));
    let mut a = tiny_display();
    let hwnd = a.add_window(100, 100, 100, 100, full, client);
    let buf = capture_window_ex(
        &mut a,
        hwnd,
        Using::PrintWindow,
        Area::ClientOnly,
        Some((10, 10)),
        Some((50, 50)),
    )
    .unwrap();
    assert_eq!((buf.width, buf.height), (50, 50));
    assert_eq!(&buf.pixels[0..4], &[7, 10, 10, 0]);
    assert_eq!(a.acquires, a.releases);
}

#[test]
fn crop_defaults_to_rest_of_rectangle() {
    // Only an origin: the crop extends to the bottom-right corner.
    let client = grid(8, 6, |x, y| px(x as u8, y as u8, 1));
    let mut a = tiny_display();
    let hwnd = a.add_window(8, 6, 8, 6, grid(8, 6, |_, _| px(0, 0, 0)), client);
    let buf = capture_window_ex(
        &mut a,
        hwnd,
        Using::BitBlt,
        Area::ClientOnly,
        Some((3, 2)),
        None,
    )
    .unwrap();
    assert_eq!((buf.width, buf.height), (5, 4));
    assert_eq!(&buf.pixels[0..4], &[1, 2, 3, 0]);
}

#[test]
fn crop_outside_rectangle_is_invalid_combination() {
    let client = grid(10, 10, |_, _| px(0, 0, 0));
    let mut a = tiny_display();
    let hwnd = a.add_window(10, 10, 10, 10, grid(10, 10, |_, _| px(0, 0, 0)), client);
    let r = capture_window_ex(
        &mut a,
        hwnd,
        Using::BitBlt,
        Area::ClientOnly,
        Some((6, 6)),
        Some((6, 6)),
    );
    assert!(matches!(r, Err(WSError::InvalidCaptureCombination)));
    assert_eq!(a.acquires, a.releases);
}

#[test]
fn zero_size_window_reports_rect_unavailable() {
    let mut a = tiny_display();
    let hwnd = a.add_window(0, 0, 0, 0, Vec::new(), Vec::new());
    let r = capture_window(&mut a, hwnd);
    assert!(matches!(r, Err(WSError::RectUnavailable)));
    assert_eq!(a.acquires, a.releases);
}

#[test]
fn null_handle_reports_rect_unavailable() {
    let mut a = tiny_display();
    let r = capture_window(&mut a, 0);
    assert!(matches!(r, Err(WSError::RectUnavailable)));
}

#[test]
fn unknown_handle_fails_surface_acquisition() {
    let mut a = tiny_display();
    let r = capture_window(&mut a, 42);
    assert!(matches!(r, Err(WSError::ResourceAcquisitionFailed)));
    assert_eq!(a.acquires, a.releases);
}

#[test]
fn every_failure_stage_keeps_resources_balanced() {
    // Inject a failure into each fallible platform call of the longest
    // path (render request, client area, two-pass crop) in turn; each
    // stage reports its own error kind and leaks nothing.
    let expected = [
        WSError::ResourceAcquisitionFailed, // acquire window surface
        WSError::RectUnavailable,           // client rectangle query
        WSError::ResourceAcquisitionFailed, // compatible surface
        WSError::ResourceAcquisitionFailed, // staging bitmap
        WSError::SelectionFailed,           // select staging bitmap
        WSError::RenderFailed,              // render request
        WSError::ResourceAcquisitionFailed, // crop surface
        WSError::ResourceAcquisitionFailed, // crop bitmap
        WSError::SelectionFailed,           // select crop bitmap
        WSError::RenderFailed,              // crop block copy
        WSError::ReadbackFailed,            // pixel readback
    ];
    for (k, want) in expected.iter().enumerate() {
        let client = grid(10, 10, |x, y| px(x as u8, y as u8, 5));
        let mut a = tiny_display();
        let hwnd = a.add_window(10, 10, 10, 10, grid(10, 10, |_, _| px(0, 0, 0)), client);
        a.set_failure_after(k as u32);
        let r = capture_window_ex(
            &mut a,
            hwnd,
            Using::PrintWindow,
            Area::ClientOnly,
            Some((2, 2)),
            Some((4, 4)),
        );
        assert_eq!(r.unwrap_err(), *want, "stage {k}");
        assert_eq!(a.acquires, a.releases, "stage {k} leaked");
    }
    // One stage later than the last fallible call: the capture succeeds.
    let client = grid(10, 10, |x, y| px(x as u8, y as u8, 5));
    let mut a = tiny_display();
    let hwnd = a.add_window(10, 10, 10, 10, grid(10, 10, |_, _| px(0, 0, 0)), client);
    a.set_failure_after(expected.len() as u32);
    let buf = capture_window_ex(
        &mut a,
        hwnd,
        Using::PrintWindow,
        Area::ClientOnly,
        Some((2, 2)),
        Some((4, 4)),
    )
    .unwrap();
    assert_eq!((buf.width, buf.height), (4, 4));
    assert_eq!(a.acquires, a.releases);
}

#[test]
fn display_failure_stages_keep_resources_balanced() {
    let expected = [
        WSError::ResourceAcquisitionFailed, // screen surface
        WSError::ResourceAcquisitionFailed, // compatible surface
        WSError::ResourceAcquisitionFailed, // bitmap
        WSError::SelectionFailed,           // select
        WSError::RenderFailed,              // stretch copy
        WSError::ReadbackFailed,            // readback
    ];
    for (k, want) in expected.iter().enumerate() {
        let mut a = SyntheticAdapter::new(0, 0, 4, 4, grid(4, 4, |_, _| px(1, 1, 1)));
        a.set_failure_after(k as u32);
        let r = capture_display(&mut a);
        assert_eq!(r.unwrap_err(), *want, "stage {k}");
        assert_eq!(a.acquires, a.releases, "stage {k} leaked");
    }
}

#[test]
fn dpi_awareness_init_is_idempotent() {
    let mut a = tiny_display();
    init_dpi_awareness(&mut a);
    init_dpi_awareness(&mut a);
    init_dpi_awareness(&mut a);
    assert_eq!(a.dpi_side_effects, 1);
    // Captures apply it too, but never re-run the side effect.
    let _ = capture_display(&mut a);
    assert_eq!(a.dpi_side_effects, 1);
}

#[test]
fn dpi_awareness_applied_by_captures() {
    let mut a = tiny_display();
    let _ = capture_display(&mut a);
    assert_eq!(a.dpi_side_effects, 1);
    let hwnd = a.add_window(2, 2, 2, 2, grid(2, 2, |_, _| px(0, 0, 0)), grid(2, 2, |_, _| px(0, 0, 0)));
    let _ = capture_window(&mut a, hwnd);
    assert_eq!(a.dpi_side_effects, 1);
}

#[test]
fn client_only_render_uses_client_content() {
    let full = grid(6, 5, |_, _| px(1, 1, 1));
    let client = grid(4, 3, |_, _| px(2, 3, 4));
    let mut a = tiny_display();
    let hwnd = a.add_window(6, 5, 4, 3, full, client);
    let buf = capture_window_ex(&mut a, hwnd, Using::PrintWindow, Area::ClientOnly, None, None)
        .unwrap();
    assert_eq!((buf.width, buf.height), (4, 3));
    assert_eq!(&buf.pixels[0..4], &[4, 3, 2, 0]);
}

#[test]
fn into_buffer_matches_owned_capture() {
    let full = grid(3, 3, |x, y| px(x as u8, y as u8, 8));
    let client = grid(2, 2, |_, _| px(0, 0, 0));
    let mut a = tiny_display();
    let hwnd = a.add_window(3, 3, 2, 2, full.clone(), client.clone());
    let mut buffer = Vec::new();
    let ws = capture_window_into_buffer(&mut a, hwnd, &mut buffer).unwrap();
    assert_eq!((ws.width, ws.height), (3, 3));

    let mut b = tiny_display();
    let hwnd2 = b.add_window(3, 3, 2, 2, full, client);
    let buf = capture_window(&mut b, hwnd2).unwrap();
    assert_eq!(buffer, buf.pixels);
}

#[test]
fn into_buffer_is_cleared_on_error() {
    let mut a = tiny_display();
    let mut buffer = vec![9u8; 16];
    let r = capture_window_into_buffer(&mut a, 42, &mut buffer);
    assert!(r.is_err());
    assert!(buffer.is_empty());
}

#[test]
fn bgr_buffer_keeps_platform_channel_order() {
    let marker = px(10, 20, 30);
    let full = grid(2, 2, |_, _| marker);
    let client = grid(2, 2, |_, _| px(0, 0, 0));
    let mut a = tiny_display();
    let hwnd = a.add_window(2, 2, 2, 2, full, client);
    let mut buffer = Vec::new();
    let ws = capture_window_into_bgr_buffer(&mut a, hwnd, &mut buffer).unwrap();
    assert_eq!((ws.width, ws.height), (2, 2));
    // Untouched platform order: b, g, r, pad.
    assert_eq!(&buffer[0..4], &[10, 20, 30, 0]);
}

#[test]
fn bgr_buffer_ex_rejects_blockcopy_full() {
    let mut a = tiny_display();
    let mut buffer = Vec::new();
    let r = capture_window_into_bgr_buffer_ex(
        &mut a,
        1,
        &mut buffer,
        Using::BitBlt,
        Area::Full,
        None,
        None,
    );
    assert!(matches!(r, Err(WSError::InvalidCaptureCombination)));
}

#[test]
fn into_buffer_ex_full_crop_equals_plain_capture() {
    // A crop covering the whole rectangle goes through the cropping path
    // but returns the same bytes as the uncropped capture.
    let full = grid(5, 4, |x, y| px(x as u8, y as u8, 2));
    let client = grid(5, 4, |_, _| px(0, 0, 0));
    let mut a = tiny_display();
    let hwnd = a.add_window(5, 4, 5, 4, full.clone(), client.clone());
    let mut cropped = Vec::new();
    let ws = capture_window_into_buffer_ex(
        &mut a,
        hwnd,
        &mut cropped,
        Using::PrintWindow,
        Area::Full,
        Some((0, 0)),
        Some((5, 4)),
    )
    .unwrap();
    assert_eq!((ws.width, ws.height), (5, 4));

    let mut b = tiny_display();
    let hwnd2 = b.add_window(5, 4, 5, 4, full, client);
    let mut plain = Vec::new();
    capture_window_into_buffer(&mut b, hwnd2, &mut plain).unwrap();
    assert_eq!(cropped, plain);
}

#[test]
fn normalize_swaps_three_byte_groups() {
    // 24-bit packed pixels: two complete groups, two trailing bytes kept.
    let mut buf = vec![1u8, 2, 3, 4, 5, 6, 7, 8];
    normalize_channel_order(&mut buf, 3);
    assert_eq!(buf, vec![3, 2, 1, 6, 5, 4, 7, 8]);
}

#[test]
fn normalize_swaps_four_byte_groups_and_keeps_pad() {
    let mut buf = vec![1u8, 2, 3, 4, 5, 6, 7, 8, 9];
    normalize_channel_order(&mut buf, 4);
    assert_eq!(buf, vec![3, 2, 1, 4, 7, 6, 5, 8, 9]);
}

#[test]
fn capture_leaves_no_live_resources_on_success() {
    let full = grid(4, 4, |_, _| px(1, 2, 3));
    let client = grid(4, 4, |_, _| px(1, 2, 3));
    let mut a = tiny_display();
    let hwnd = a.add_window(4, 4, 4, 4, full, client);
    for _ in 0..3 {
        capture_window(&mut a, hwnd).unwrap();
        assert_eq!(a.acquires, a.releases);
    }
}
