//! The capture pipeline: method and area validation, rectangle resolution,
//! resource acquisition and guaranteed release, rendering, optional cropping,
//! pixel readback and channel-order normalization.

use vstd::prelude::*;

use crate::adapter::{
    same_except_dpi, surf_wf, without_bitmap, without_surface, GfxView, GraphicsAdapter,
};
use crate::pixel::{
    bgr_region_sample, normalize_channel_order, pix, rgb_region_sample, swapped_group, Pixel,
};

verus! {

/// The error kinds a capture can fail with. Any failure aborts the whole
/// call; every resource acquired earlier in the call is released first.
#[derive(Clone, Copy, PartialEq, Eq, Structural, Debug)]
pub enum WSError {
    /// A drawing surface or offscreen bitmap could not be created.
    ResourceAcquisitionFailed,
    /// The geometry query failed or reported a zero-size rectangle.
    RectUnavailable,
    /// The block copy or render request returned a failure status.
    RenderFailed,
    /// Pixel extraction failed or reported invalid parameters.
    ReadbackFailed,
    /// Binding an offscreen bitmap to a drawing surface failed.
    SelectionFailed,
    /// The requested method, area and crop do not form a valid capture
    /// request, e.g. a block copy of the full window frame.
    InvalidCaptureCombination,
}

/// Which region of the window a capture addresses.
#[derive(Clone, Copy)]
pub enum Area {
    /// The window's outer frame, including non-client chrome.
    Full,
    /// The content region only, excluding title bar and borders.
    ClientOnly,
}

/// The two capture strategies.
#[derive(PartialEq, Clone, Copy)]
pub enum Using {
    /// Direct pixel copy from the live client surface; only valid for
    /// `Area::ClientOnly`, and only sees unoccluded content.
    BitBlt,
    /// Ask the window to paint itself into the target; works for occluded
    /// windows and supports both areas.
    PrintWindow,
}

/// A captured pixel buffer: tightly packed rows, top to bottom, four bytes
/// per pixel in red-green-blue-pad order.
#[derive(Debug)]
pub struct RgbBuf {
    pub pixels: Vec<u8>,
    pub width: u32,
    pub height: u32,
}

/// The dimensions of a capture written into a caller-supplied buffer.
#[derive(Debug)]
pub struct WindowSize {
    pub width: u32,
    pub height: u32,
}

/// A block copy cannot address non-client chrome, so asking it for the full
/// frame is a contract violation, rejected rather than silently coerced.
pub open spec fn request_rejected(using: Using, area: Area) -> bool {
    using is BitBlt && area is Full
}

/// A crop was requested at all.
pub open spec fn is_cropping(crop_xy: Option<(i32, i32)>, crop_wh: Option<(i32, i32)>) -> bool {
    crop_xy is Some || crop_wh is Some
}

/// Width of the rectangle the request resolves to: the outer frame for a
/// full-area render request, the client region for everything else.
pub open spec fn resolved_w(v: GfxView, hwnd: int, using: Using, area: Area) -> int {
    if using is PrintWindow && area is Full {
        v.windows[hwnd].full_w as int
    } else {
        v.windows[hwnd].client_w as int
    }
}

/// Height of the rectangle the request resolves to.
pub open spec fn resolved_h(v: GfxView, hwnd: int, using: Using, area: Area) -> int {
    if using is PrintWindow && area is Full {
        v.windows[hwnd].full_h as int
    } else {
        v.windows[hwnd].client_h as int
    }
}

/// The pixel content the request captures from: the window's full frame for
/// a full-area render request, its client region for everything else.
pub open spec fn source_pixels(v: GfxView, hwnd: int, using: Using, area: Area) -> Seq<Pixel> {
    if using is PrintWindow && area is Full {
        v.windows[hwnd].full_content
    } else {
        v.windows[hwnd].client_content
    }
}

/// Horizontal crop origin; zero when absent.
pub open spec fn crop_x0(crop_xy: Option<(i32, i32)>) -> int {
    match crop_xy {
        Option::Some(p) => p.0 as int,
        Option::None => 0,
    }
}

/// Vertical crop origin; zero when absent.
pub open spec fn crop_y0(crop_xy: Option<(i32, i32)>) -> int {
    match crop_xy {
        Option::Some(p) => p.1 as int,
        Option::None => 0,
    }
}

/// Crop width; the rest of the resolved rectangle when absent.
pub open spec fn crop_w(crop_xy: Option<(i32, i32)>, crop_wh: Option<(i32, i32)>, rw: int) -> int {
    match crop_wh {
        Option::Some(p) => p.0 as int,
        Option::None => rw - crop_x0(crop_xy),
    }
}

/// Crop height; the rest of the resolved rectangle when absent.
pub open spec fn crop_h(crop_xy: Option<(i32, i32)>, crop_wh: Option<(i32, i32)>, rh: int) -> int {
    match crop_wh {
        Option::Some(p) => p.1 as int,
        Option::None => rh - crop_y0(crop_xy),
    }
}

/// The crop region is non-empty and lies within the resolved `rw` by `rh`
/// source rectangle. An absent crop resolves to the full rectangle and is
/// always valid for a non-empty source.
pub open spec fn crop_valid(
    crop_xy: Option<(i32, i32)>,
    crop_wh: Option<(i32, i32)>,
    rw: int,
    rh: int,
) -> bool {
    &&& 0 <= crop_x0(crop_xy) < rw
    &&& 0 <= crop_y0(crop_xy) < rh
    &&& 1 <= crop_w(crop_xy, crop_wh, rw) <= rw - crop_x0(crop_xy)
    &&& 1 <= crop_h(crop_xy, crop_wh, rh) <= rh - crop_y0(crop_xy)
}

/// Width of the first offscreen bitmap the pipeline creates: a cropping
/// block copy renders straight into a crop-sized bitmap, every other path
/// captures the full resolved rectangle first.
pub open spec fn staging_w(
    using: Using,
    crop_xy: Option<(i32, i32)>,
    crop_wh: Option<(i32, i32)>,
    rw: int,
) -> int {
    if is_cropping(crop_xy, crop_wh) && using is BitBlt {
        crop_w(crop_xy, crop_wh, rw)
    } else {
        rw
    }
}

/// Height of the first offscreen bitmap the pipeline creates.
pub open spec fn staging_h(
    using: Using,
    crop_xy: Option<(i32, i32)>,
    crop_wh: Option<(i32, i32)>,
    rh: int,
) -> int {
    if is_cropping(crop_xy, crop_wh) && using is BitBlt {
        crop_h(crop_xy, crop_wh, rh)
    } else {
        rh
    }
}

/// Every capture, successful or not, leaves the platform as it found it: no
/// net surface or bitmap remains, window and display content are untouched,
/// and the DPI-awareness flag never goes back.
pub open spec fn capture_frame(pre: GfxView, post: GfxView) -> bool {
    &&& post.surfaces == pre.surfaces
    &&& post.bitmaps == pre.bitmaps
    &&& post.windows == pre.windows
    &&& post.display == pre.display
    &&& (pre.dpi_aware ==> post.dpi_aware)
}

/// What a successful window capture returns, before channel-order
/// normalization: the request was valid, the window exists with a non-empty
/// resolved rectangle, the crop lies inside it, the reported dimensions are
/// the crop's, the buffer is exactly `4 * width * height` bytes, and pixel
/// group `(x, y)` holds, in platform blue-green-red-pad order, the source
/// pixel at the crop origin plus `(x, y)`. Row zero of the buffer is the
/// topmost captured row.
pub open spec fn capture_success_bgr(
    pre: GfxView,
    hwnd: int,
    using: Using,
    area: Area,
    crop_xy: Option<(i32, i32)>,
    crop_wh: Option<(i32, i32)>,
    bytes: Seq<u8>,
    width: u32,
    height: u32,
) -> bool {
    let rw = resolved_w(pre, hwnd, using, area);
    let rh = resolved_h(pre, hwnd, using, area);
    let cw = crop_w(crop_xy, crop_wh, rw);
    let ch = crop_h(crop_xy, crop_wh, rh);
    &&& !request_rejected(using, area)
    &&& pre.windows.dom().contains(hwnd)
    &&& 1 <= rw
    &&& 1 <= rh
    &&& crop_valid(crop_xy, crop_wh, rw, rh)
    &&& 4 * staging_w(using, crop_xy, crop_wh, rw) * staging_h(using, crop_xy, crop_wh, rh)
        <= u32::MAX
    &&& width == cw
    &&& height == ch
    &&& bytes.len() == 4 * cw * ch
    &&& forall|x: int, y: int|
        0 <= x < cw && 0 <= y < ch ==> #[trigger] bgr_region_sample(
            bytes,
            4,
            source_pixels(pre, hwnd, using, area),
            rw,
            crop_x0(crop_xy),
            crop_y0(crop_xy),
            cw,
            x,
            y,
        )
}

/// As [`capture_success_bgr`], but with every pixel group normalized to
/// red-green-blue-pad order, the order the public captures return.
pub open spec fn capture_success_rgb(
    pre: GfxView,
    hwnd: int,
    using: Using,
    area: Area,
    crop_xy: Option<(i32, i32)>,
    crop_wh: Option<(i32, i32)>,
    bytes: Seq<u8>,
    width: u32,
    height: u32,
) -> bool {
    let rw = resolved_w(pre, hwnd, using, area);
    let rh = resolved_h(pre, hwnd, using, area);
    let cw = crop_w(crop_xy, crop_wh, rw);
    let ch = crop_h(crop_xy, crop_wh, rh);
    &&& !request_rejected(using, area)
    &&& pre.windows.dom().contains(hwnd)
    &&& 1 <= rw
    &&& 1 <= rh
    &&& crop_valid(crop_xy, crop_wh, rw, rh)
    &&& 4 * staging_w(using, crop_xy, crop_wh, rw) * staging_h(using, crop_xy, crop_wh, rh)
        <= u32::MAX
    &&& width == cw
    &&& height == ch
    &&& bytes.len() == 4 * cw * ch
    &&& forall|x: int, y: int|
        0 <= x < cw && 0 <= y < ch ==> #[trigger] rgb_region_sample(
            bytes,
            4,
            source_pixels(pre, hwnd, using, area),
            rw,
            crop_x0(crop_xy),
            crop_y0(crop_xy),
            cw,
            x,
            y,
        )
}

/// What each error kind means for a window capture. An invalid combination
/// is reported exactly for a rejected method/area pair or a crop outside the
/// resolved rectangle; every other kind can only arise on a valid request.
pub open spec fn capture_error(
    pre: GfxView,
    hwnd: int,
    using: Using,
    area: Area,
    crop_xy: Option<(i32, i32)>,
    crop_wh: Option<(i32, i32)>,
    e: WSError,
) -> bool {
    match e {
        WSError::InvalidCaptureCombination => request_rejected(using, area) || (hwnd != 0
            && pre.windows.dom().contains(hwnd) && 1 <= resolved_w(pre, hwnd, using, area) && 1
            <= resolved_h(pre, hwnd, using, area) && !crop_valid(
            crop_xy,
            crop_wh,
            resolved_w(pre, hwnd, using, area),
            resolved_h(pre, hwnd, using, area),
        )),
        _ => !request_rejected(using, area),
    }
}

/// What a successful whole-display capture returns: the virtual display's
/// dimensions, a tightly packed buffer of exactly `4 * width * height`
/// bytes, and pixel group `(x, y)` holding display pixel `(x, y)` in
/// red-green-blue-pad order, top row first.
pub open spec fn display_success(pre: GfxView, bytes: Seq<u8>, width: u32, height: u32) -> bool {
    &&& width == pre.display.w
    &&& height == pre.display.h
    &&& 1 <= pre.display.w
    &&& 1 <= pre.display.h
    &&& 4 * pre.display.w * pre.display.h <= u32::MAX
    &&& bytes.len() == 4 * pre.display.w * pre.display.h
    &&& forall|x: int, y: int|
        0 <= x < pre.display.w && 0 <= y < pre.display.h ==> #[trigger] rgb_region_sample(
            bytes,
            4,
            pre.display.content,
            pre.display.w as int,
            0,
            0,
            pre.display.w as int,
            x,
            y,
        )
}

/// What each error kind means for a whole-display capture. Geometry is only
/// unavailable when the virtual display reports a zero size; no combination
/// can be invalid.
pub open spec fn display_error(pre: GfxView, e: WSError) -> bool {
    match e {
        WSError::RectUnavailable => pre.display.w == 0 || pre.display.h == 0,
        WSError::InvalidCaptureCombination => false,
        _ => true,
    }
}

/// One-time, process-wide DPI-awareness initialization, applied before
/// geometry is measured so scaled displays report physical pixels. It is
/// best-effort — a platform refusal is swallowed — and idempotent: it never
/// fails, and once the flag is set a repeated call, from any call site,
/// changes nothing at all.
pub fn init_dpi_awareness<A: GraphicsAdapter>(a: &mut A)
    requires
        old(a).inv(),
    ensures
        final(a).inv(),
        same_except_dpi(old(a).gfx(), final(a).gfx()),
        old(a).gfx().dpi_aware ==> final(a).gfx() == old(a).gfx(),
{
    a.ensure_dpi_awareness();
}

/// Release the window or screen surface of a capture that failed before
/// creating anything else.
fn cleanup_one<A: GraphicsAdapter>(a: &mut A, surf_win: usize)
    requires
        old(a).inv(),
        old(a).gfx().surfaces.dom().contains(surf_win as int),
        !(old(a).gfx().surfaces[surf_win as int].kind is Memory),
    ensures
        final(a).inv(),
        final(a).gfx() == without_surface(old(a).gfx(), surf_win as int),
{
    a.release_window_surface(surf_win);
}

/// Release a memory surface and then the window surface, in reverse
/// acquisition order.
fn cleanup_two<A: GraphicsAdapter>(a: &mut A, surf_win: usize, surf_mem: usize)
    requires
        old(a).inv(),
        old(a).gfx().surfaces.dom().contains(surf_win as int),
        !(old(a).gfx().surfaces[surf_win as int].kind is Memory),
        old(a).gfx().surfaces.dom().contains(surf_mem as int),
        old(a).gfx().surfaces[surf_mem as int].kind is Memory,
        old(a).gfx().surfaces[surf_mem as int].selected is None,
        surf_mem != surf_win,
    ensures
        final(a).inv(),
        final(a).gfx() == without_surface(
            without_surface(old(a).gfx(), surf_mem as int),
            surf_win as int,
        ),
{
    a.delete_surface(surf_mem);
    a.release_window_surface(surf_win);
}

/// Release an unselected bitmap, its memory surface and the window surface,
/// in reverse acquisition order.
fn cleanup_three<A: GraphicsAdapter>(a: &mut A, surf_win: usize, surf_mem: usize, bmp: usize)
    requires
        old(a).inv(),
        old(a).gfx().surfaces.dom().contains(surf_win as int),
        !(old(a).gfx().surfaces[surf_win as int].kind is Memory),
        old(a).gfx().surfaces.dom().contains(surf_mem as int),
        old(a).gfx().surfaces[surf_mem as int].kind is Memory,
        old(a).gfx().surfaces[surf_mem as int].selected is None,
        surf_mem != surf_win,
        old(a).gfx().bitmaps.dom().contains(bmp as int),
        forall|s: int| #[trigger]
            old(a).gfx().surfaces.dom().contains(s) ==> old(a).gfx().surfaces[s].selected
                != Option::Some(bmp as int),
    ensures
        final(a).inv(),
        final(a).gfx() == without_surface(
            without_surface(without_bitmap(old(a).gfx(), bmp as int), surf_mem as int),
            surf_win as int,
        ),
{
    a.delete_bitmap(bmp);
    a.delete_surface(surf_mem);
    a.release_window_surface(surf_win);
}

/// Deselect the bitmap from its memory surface, then release bitmap, memory
/// surface and window surface: innermost resource first, as the platform
/// requires.
fn cleanup_four<A: GraphicsAdapter>(a: &mut A, surf_win: usize, surf_mem: usize, bmp: usize)
    requires
        old(a).inv(),
        old(a).gfx().surfaces.dom().contains(surf_win as int),
        !(old(a).gfx().surfaces[surf_win as int].kind is Memory),
        old(a).gfx().surfaces.dom().contains(surf_mem as int),
        old(a).gfx().surfaces[surf_mem as int].kind is Memory,
        old(a).gfx().surfaces[surf_mem as int].selected == Option::Some(bmp as int),
        surf_mem != surf_win,
        old(a).gfx().bitmaps.dom().contains(bmp as int),
        forall|s: int| #[trigger]
            old(a).gfx().surfaces.dom().contains(s) && s != surf_mem as int ==> old(
                a,
            ).gfx().surfaces[s].selected != Option::Some(bmp as int),
    ensures
        final(a).inv(),
        final(a).gfx() == (GfxView {
            surfaces: old(a).gfx().surfaces.remove(surf_mem as int).remove(surf_win as int),
            bitmaps: old(a).gfx().bitmaps.remove(bmp as int),
            ..old(a).gfx()
        }),
{
    let ghost v0 = a.gfx();
    a.restore_selection(surf_mem);
    a.delete_bitmap(bmp);
    a.delete_surface(surf_mem);
    a.release_window_surface(surf_win);
    proof {
        assert(final(a).gfx().surfaces =~= v0.surfaces.remove(surf_mem as int).remove(
            surf_win as int,
        ));
        assert(final(a).gfx() =~= GfxView {
            surfaces: v0.surfaces.remove(surf_mem as int).remove(surf_win as int),
            bitmaps: v0.bitmaps.remove(bmp as int),
            ..v0
        });
    }
}

/// The requested staging bitmap, at four bytes per pixel, fits the
/// platform's 32-bit byte-count range.
fn staging_fits(w: i32, h: i32) -> (r: bool)
    requires
        1 <= w,
        1 <= h,
    ensures
        r <==> 4 * (w as int) * (h as int) <= u32::MAX,
{
    proof {
        assert((4 * (w as int)) * (h as int) <= 0xffff_ffff_ffff_ffff) by (nonlinear_arith)
            requires
                1 <= w <= 0x7fff_ffff,
                1 <= h <= 0x7fff_ffff,
        ;
    }
    let p: u64 = 4u64 * (w as u64) * (h as u64);
    p <= 0xffff_ffffu64
}

/// Captures a window into a caller-supplied buffer, leaving the pixel bytes
/// in the platform's blue-green-red-pad order. This is the one configurable
/// pipeline behind every window capture: it validates the method and area,
/// resolves the source rectangle, acquires the surfaces and bitmaps, renders
/// by block copy or render request, crops either in the first pass or in a
/// second one, reads the pixels back top row first, and releases every
/// acquired resource on every path, success or failure.
pub fn capture_window_into_bgr_buffer_ex<A: GraphicsAdapter>(
    a: &mut A,
    hwnd: isize,
    buffer: &mut Vec<u8>,
    using: Using,
    area: Area,
    crop_xy: Option<(i32, i32)>,
    crop_wh: Option<(i32, i32)>,
) -> (r: Result<WindowSize, WSError>)
    requires
        old(a).inv(),
    ensures
        final(a).inv(),
        capture_frame(old(a).gfx(), final(a).gfx()),
        request_rejected(using, area) ==> (r matches Err(e)
            && e is InvalidCaptureCombination),
        match r {
            Result::Ok(ws) => capture_success_bgr(
                old(a).gfx(),
                hwnd as int,
                using,
                area,
                crop_xy,
                crop_wh,
                final(buffer)@,
                ws.width,
                ws.height,
            ),
            Result::Err(e) => capture_error(
                old(a).gfx(),
                hwnd as int,
                using,
                area,
                crop_xy,
                crop_wh,
                e,
            ) && final(buffer)@.len() == 0,
        },
{
    let ghost v0 = a.gfx();
    buffer.clear();

    // A block copy cannot address non-client chrome: reject, never coerce.
    if matches!(using, Using::BitBlt) && matches!(area, Area::Full) {
        return Err(WSError::InvalidCaptureCombination);
    }
    init_dpi_awareness(a);
    let ghost v1 = a.gfx();

    // The platform cannot resolve a window rectangle for a null handle.
    if hwnd == 0 {
        return Err(WSError::RectUnavailable);
    }
    let surf_win = match a.acquire_window_surface(hwnd) {
        Option::Some(s) => s,
        Option::None => {
            return Err(WSError::ResourceAcquisitionFailed);
        },
    };

    let rect_opt = match (using, area) {
        (Using::PrintWindow, Area::Full) => a.window_rect(hwnd),
        _ => a.client_rect(hwnd),
    };
    let rect = match rect_opt {
        Option::Some(rc) => rc,
        Option::None => {
            cleanup_one(a, surf_win);
            proof {
                assert(a.gfx().surfaces =~= v0.surfaces);
            }
            return Err(WSError::RectUnavailable);
        },
    };
    let rw = rect.width();
    let rh = rect.height();
    proof {
        assert(rw == resolved_w(v0, hwnd as int, using, area));
        assert(rh == resolved_h(v0, hwnd as int, using, area));
    }
    if rw < 1 || rh < 1 {
        cleanup_one(a, surf_win);
        proof {
            assert(a.gfx().surfaces =~= v0.surfaces);
        }
        return Err(WSError::RectUnavailable);
    }

    // Resolve and validate the crop region against the source rectangle.
    let (cx, cy): (i32, i32) = match crop_xy {
        Option::Some(p) => p,
        Option::None => (0, 0),
    };
    if cx < 0 || cy < 0 || cx >= rw || cy >= rh {
        cleanup_one(a, surf_win);
        proof {
            assert(a.gfx().surfaces =~= v0.surfaces);
        }
        return Err(WSError::InvalidCaptureCombination);
    }
    let (cw, ch): (i32, i32) = match crop_wh {
        Option::Some(p) => p,
        Option::None => (rw - cx, rh - cy),
    };
    if cw < 1 || ch < 1 || cw > rw - cx || ch > rh - cy {
        cleanup_one(a, surf_win);
        proof {
            assert(a.gfx().surfaces =~= v0.surfaces);
        }
        return Err(WSError::InvalidCaptureCombination);
    }
    let cropping = crop_xy.is_some() || crop_wh.is_some();

    let surf_mem = match a.create_compatible_surface(surf_win) {
        Option::Some(s) => s,
        Option::None => {
            cleanup_one(a, surf_win);
            proof {
                assert(a.gfx().surfaces =~= v0.surfaces);
            }
            return Err(WSError::ResourceAcquisitionFailed);
        },
    };
    proof {
        a.inv_wf();
    }
    let ghost v2 = a.gfx();

    // A cropping block copy renders straight into a crop-sized bitmap;
    // every other path stages the full resolved rectangle first.
    let (bw, bh): (i32, i32) = if cropping && matches!(using, Using::BitBlt) {
        (cw, ch)
    } else {
        (rw, rh)
    };
    if !staging_fits(bw, bh) {
        cleanup_two(a, surf_win, surf_mem);
        proof {
            assert(a.gfx().surfaces =~= v0.surfaces);
        }
        return Err(WSError::ResourceAcquisitionFailed);
    }
    let bmp = match a.create_compatible_bitmap(surf_win, bw as u32, bh as u32) {
        Option::Some(b) => b,
        Option::None => {
            cleanup_two(a, surf_win, surf_mem);
            proof {
                assert(a.gfx().surfaces =~= v0.surfaces);
            }
            return Err(WSError::ResourceAcquisitionFailed);
        },
    };
    proof {
        assert forall|s: int| #[trigger] a.gfx().surfaces.dom().contains(s) implies a
            .gfx().surfaces[s].selected != Option::Some(bmp as int) by {
            assert(v2.surfaces.dom().contains(s));
            assert(surf_wf(v2, v2.surfaces[s]));
        }
    }
    if !a.select_bitmap(surf_mem, bmp) {
        cleanup_three(a, surf_win, surf_mem, bmp);
        proof {
            assert(a.gfx().surfaces =~= v0.surfaces);
            assert(a.gfx().bitmaps =~= v0.bitmaps);
        }
        return Err(WSError::SelectionFailed);
    }
    proof {
        assert forall|s: int| #[trigger] a.gfx().surfaces.dom().contains(s) && s
            != surf_mem as int implies a.gfx().surfaces[s].selected != Option::Some(
            bmp as int,
        ) by {
            assert(v2.surfaces.dom().contains(s));
            assert(surf_wf(v2, v2.surfaces[s]));
        }
    }

    // Render: one-pass block copy of the (possibly cropped) client region,
    // or ask the window to paint its full resolved rectangle.
    let rendered = if matches!(using, Using::BitBlt) {
        a.block_copy(surf_mem, cw as u32, ch as u32, surf_win, cx, cy)
    } else {
        a.render_window(hwnd, surf_mem, area)
    };
    if !rendered {
        cleanup_four(a, surf_win, surf_mem, bmp);
        proof {
            assert(a.gfx().surfaces =~= v0.surfaces);
            assert(a.gfx().bitmaps =~= v0.bitmaps);
        }
        return Err(WSError::RenderFailed);
    }

    let (out_surf, out_bmp, second_pass) = if cropping && matches!(using, Using::PrintWindow) {
        // The window cannot be asked to render only a sub-rectangle of
        // itself: copy the crop out of the full capture in a second pass.
        let surf2 = match a.create_compatible_surface(surf_mem) {
            Option::Some(s) => s,
            Option::None => {
                cleanup_four(a, surf_win, surf_mem, bmp);
                proof {
                    assert(a.gfx().surfaces =~= v0.surfaces);
                    assert(a.gfx().bitmaps =~= v0.bitmaps);
                }
                return Err(WSError::ResourceAcquisitionFailed);
            },
        };
        proof {
            a.inv_wf();
            assert(4 * (cw as int) * (ch as int) <= 4 * (rw as int) * (rh as int))
                by (nonlinear_arith)
                requires
                    1 <= cw <= rw,
                    1 <= ch <= rh,
            ;
        }
        let ghost v3 = a.gfx();
        let bmp2 = match a.create_compatible_bitmap(surf_mem, cw as u32, ch as u32) {
            Option::Some(b) => b,
            Option::None => {
                a.delete_surface(surf2);
                cleanup_four(a, surf_win, surf_mem, bmp);
                proof {
                    assert(a.gfx().surfaces =~= v0.surfaces);
                    assert(a.gfx().bitmaps =~= v0.bitmaps);
                }
                return Err(WSError::ResourceAcquisitionFailed);
            },
        };
        proof {
            assert forall|s: int| #[trigger] a.gfx().surfaces.dom().contains(s) implies a
                .gfx().surfaces[s].selected != Option::Some(bmp2 as int) by {
                assert(v3.surfaces.dom().contains(s));
                assert(surf_wf(v3, v3.surfaces[s]));
            }
        }
        if !a.select_bitmap(surf2, bmp2) {
            a.delete_bitmap(bmp2);
            a.delete_surface(surf2);
            cleanup_four(a, surf_win, surf_mem, bmp);
            proof {
                assert(a.gfx().surfaces =~= v0.surfaces);
                assert(a.gfx().bitmaps =~= v0.bitmaps);
            }
            return Err(WSError::SelectionFailed);
        }
        if !a.block_copy(surf2, cw as u32, ch as u32, surf_mem, cx, cy) {
            a.restore_selection(surf2);
            proof {
                assert forall|s: int| #[trigger] a.gfx().surfaces.dom().contains(s) implies a
                    .gfx().surfaces[s].selected != Option::Some(bmp2 as int) by {
                    if s != surf2 as int && s != surf_mem as int {
                        assert(v3.surfaces.dom().contains(s));
                        assert(surf_wf(v3, v3.surfaces[s]));
                    }
                }
            }
            a.delete_bitmap(bmp2);
            a.delete_surface(surf2);
            cleanup_four(a, surf_win, surf_mem, bmp);
            proof {
                assert(a.gfx().surfaces =~= v0.surfaces);
                assert(a.gfx().bitmaps =~= v0.bitmaps);
            }
            return Err(WSError::RenderFailed);
        }
        a.restore_selection(surf2);
        (surf2, bmp2, true)
    } else {
        (surf_mem, bmp, false)
    };

    let out_w = if matches!(using, Using::BitBlt) || second_pass {
        cw
    } else {
        rw
    };
    let out_h = if matches!(using, Using::BitBlt) || second_pass {
        ch
    } else {
        rh
    };
    proof {
        assert(out_w == crop_w(crop_xy, crop_wh, rw as int));
        assert(out_h == crop_h(crop_xy, crop_wh, rh as int));
    }

    let bytes_opt = a.read_pixels(out_surf, out_bmp, out_w as u32, out_h as u32, 4);
    let ghost read_view = a.gfx();
    let bytes = match bytes_opt {
        Option::Some(b) => b,
        Option::None => {
            if second_pass {
                a.delete_bitmap(out_bmp);
                a.delete_surface(out_surf);
            }
            cleanup_four(a, surf_win, surf_mem, bmp);
            proof {
                assert(a.gfx().surfaces =~= v0.surfaces);
                assert(a.gfx().bitmaps =~= v0.bitmaps);
            }
            return Err(WSError::ReadbackFailed);
        },
    };
    if second_pass {
        a.delete_bitmap(out_bmp);
        a.delete_surface(out_surf);
    }
    cleanup_four(a, surf_win, surf_mem, bmp);
    proof {
        assert(a.gfx().surfaces =~= v0.surfaces);
        assert(a.gfx().bitmaps =~= v0.bitmaps);
        let src = source_pixels(v0, hwnd as int, using, area);
        let content = read_view.bitmaps[out_bmp as int].content;
        assert forall|x: int, y: int| 0 <= x < out_w && 0 <= y < out_h implies #[trigger]
            bgr_region_sample(
            bytes@,
            4,
            src,
            rw as int,
            crop_x0(crop_xy),
            crop_y0(crop_xy),
            out_w as int,
            x,
            y,
        ) by {
            assert(bgr_region_sample(bytes@, 4, content, out_w as int, 0, 0, out_w as int, x, y));
            assert(pix(content, out_w as int, x, y) == pix(
                src,
                rw as int,
                crop_x0(crop_xy) + x,
                crop_y0(crop_xy) + y,
            ));
        }
    }
    *buffer = bytes;
    Ok(WindowSize { width: out_w as u32, height: out_h as u32 })
}

/// Captures a window into a caller-supplied buffer and normalizes every
/// pixel group to red-green-blue-pad order.
pub fn capture_window_into_buffer_ex<A: GraphicsAdapter>(
    a: &mut A,
    hwnd: isize,
    buffer: &mut Vec<u8>,
    using: Using,
    area: Area,
    crop_xy: Option<(i32, i32)>,
    crop_wh: Option<(i32, i32)>,
) -> (r: Result<WindowSize, WSError>)
    requires
        old(a).inv(),
    ensures
        final(a).inv(),
        capture_frame(old(a).gfx(), final(a).gfx()),
        request_rejected(using, area) ==> (r matches Err(e)
            && e is InvalidCaptureCombination),
        match r {
            Result::Ok(ws) => capture_success_rgb(
                old(a).gfx(),
                hwnd as int,
                using,
                area,
                crop_xy,
                crop_wh,
                final(buffer)@,
                ws.width,
                ws.height,
            ),
            Result::Err(e) => capture_error(
                old(a).gfx(),
                hwnd as int,
                using,
                area,
                crop_xy,
                crop_wh,
                e,
            ) && final(buffer)@.len() == 0,
        },
{
    let r = capture_window_into_bgr_buffer_ex(a, hwnd, buffer, using, area, crop_xy, crop_wh);
    match r {
        Result::Ok(ws) => {
            let ghost pre_swap = buffer@;
            let ghost src = source_pixels(old(a).gfx(), hwnd as int, using, area);
            let ghost rw = resolved_w(old(a).gfx(), hwnd as int, using, area);
            let ghost cw = crop_w(crop_xy, crop_wh, rw);
            let ghost ch = crop_h(crop_xy, crop_wh, resolved_h(old(a).gfx(), hwnd as int, using, area));
            normalize_channel_order(buffer, 4);
            proof {
                vstd::arithmetic::div_mod::lemma_div_multiples_vanish(cw * ch, 4);
                assert(4 * cw * ch == 4 * (cw * ch)) by (nonlinear_arith);
                assert(pre_swap.len() as int / 4 == cw * ch);
                assert forall|x: int, y: int| 0 <= x < cw && 0 <= y < ch implies #[trigger]
                    rgb_region_sample(
                    buffer@,
                    4,
                    src,
                    rw,
                    crop_x0(crop_xy),
                    crop_y0(crop_xy),
                    cw,
                    x,
                    y,
                ) by {
                    assert(bgr_region_sample(
                        pre_swap,
                        4,
                        src,
                        rw,
                        crop_x0(crop_xy),
                        crop_y0(crop_xy),
                        cw,
                        x,
                        y,
                    ));
                    assert(y * cw + x < cw * ch) by (nonlinear_arith)
                        requires
                            0 <= x < cw,
                            0 <= y < ch,
                    ;
                    assert(swapped_group(pre_swap, buffer@, 4, y * cw + x));
                }
            }
            Ok(ws)
        },
        Result::Err(e) => Err(e),
    }
}

/// Captures a window and returns an owned red-green-blue-pad pixel buffer
/// with its dimensions.
pub fn capture_window_ex<A: GraphicsAdapter>(
    a: &mut A,
    hwnd: isize,
    using: Using,
    area: Area,
    crop_xy: Option<(i32, i32)>,
    crop_wh: Option<(i32, i32)>,
) -> (r: Result<RgbBuf, WSError>)
    requires
        old(a).inv(),
    ensures
        final(a).inv(),
        capture_frame(old(a).gfx(), final(a).gfx()),
        request_rejected(using, area) ==> (r matches Err(e)
            && e is InvalidCaptureCombination),
        match r {
            Result::Ok(buf) => capture_success_rgb(
                old(a).gfx(),
                hwnd as int,
                using,
                area,
                crop_xy,
                crop_wh,
                buf.pixels@,
                buf.width,
                buf.height,
            ),
            Result::Err(e) => capture_error(
                old(a).gfx(),
                hwnd as int,
                using,
                area,
                crop_xy,
                crop_wh,
                e,
            ),
        },
{
    let mut buffer: Vec<u8> = Vec::new();
    match capture_window_into_buffer_ex(a, hwnd, &mut buffer, using, area, crop_xy, crop_wh) {
        Result::Ok(ws) => Ok(RgbBuf { pixels: buffer, width: ws.width, height: ws.height }),
        Result::Err(e) => Err(e),
    }
}

/// Captures a window's full frame by render request: the default capture.
pub fn capture_window<A: GraphicsAdapter>(a: &mut A, hwnd: isize) -> (r: Result<RgbBuf, WSError>)
    requires
        old(a).inv(),
    ensures
        final(a).inv(),
        capture_frame(old(a).gfx(), final(a).gfx()),
        match r {
            Result::Ok(buf) => capture_success_rgb(
                old(a).gfx(),
                hwnd as int,
                Using::PrintWindow,
                Area::Full,
                Option::None,
                Option::None,
                buf.pixels@,
                buf.width,
                buf.height,
            ),
            Result::Err(e) => capture_error(
                old(a).gfx(),
                hwnd as int,
                Using::PrintWindow,
                Area::Full,
                Option::None,
                Option::None,
                e,
            ),
        },
{
    capture_window_ex(a, hwnd, Using::PrintWindow, Area::Full, Option::None, Option::None)
}

/// Captures a window's full frame by render request into a caller-supplied
/// buffer, returning the dimensions.
pub fn capture_window_into_buffer<A: GraphicsAdapter>(
    a: &mut A,
    hwnd: isize,
    buffer: &mut Vec<u8>,
) -> (r: Result<WindowSize, WSError>)
    requires
        old(a).inv(),
    ensures
        final(a).inv(),
        capture_frame(old(a).gfx(), final(a).gfx()),
        match r {
            Result::Ok(ws) => capture_success_rgb(
                old(a).gfx(),
                hwnd as int,
                Using::PrintWindow,
                Area::Full,
                Option::None,
                Option::None,
                final(buffer)@,
                ws.width,
                ws.height,
            ),
            Result::Err(e) => capture_error(
                old(a).gfx(),
                hwnd as int,
                Using::PrintWindow,
                Area::Full,
                Option::None,
                Option::None,
                e,
            ) && final(buffer)@.len() == 0,
        },
{
    capture_window_into_buffer_ex(
        a,
        hwnd,
        buffer,
        Using::PrintWindow,
        Area::Full,
        Option::None,
        Option::None,
    )
}

/// Captures a window's full frame by render request into a caller-supplied
/// buffer, leaving the bytes in platform blue-green-red-pad order.
pub fn capture_window_into_bgr_buffer<A: GraphicsAdapter>(
    a: &mut A,
    hwnd: isize,
    buffer: &mut Vec<u8>,
) -> (r: Result<WindowSize, WSError>)
    requires
        old(a).inv(),
    ensures
        final(a).inv(),
        capture_frame(old(a).gfx(), final(a).gfx()),
        match r {
            Result::Ok(ws) => capture_success_bgr(
                old(a).gfx(),
                hwnd as int,
                Using::PrintWindow,
                Area::Full,
                Option::None,
                Option::None,
                final(buffer)@,
                ws.width,
                ws.height,
            ),
            Result::Err(e) => capture_error(
                old(a).gfx(),
                hwnd as int,
                Using::PrintWindow,
                Area::Full,
                Option::None,
                Option::None,
                e,
            ) && final(buffer)@.len() == 0,
        },
{
    capture_window_into_bgr_buffer_ex(
        a,
        hwnd,
        buffer,
        Using::PrintWindow,
        Area::Full,
        Option::None,
        Option::None,
    )
}

/// Captures the entire virtual display: every attached monitor's combined
/// bounding box, read through a one-for-one stretch copy of the screen
/// surface, returned in red-green-blue-pad order, top row first.
pub fn capture_display<A: GraphicsAdapter>(a: &mut A) -> (r: Result<RgbBuf, WSError>)
    requires
        old(a).inv(),
    ensures
        final(a).inv(),
        capture_frame(old(a).gfx(), final(a).gfx()),
        match r {
            Result::Ok(buf) => display_success(old(a).gfx(), buf.pixels@, buf.width, buf.height),
            Result::Err(e) => display_error(old(a).gfx(), e),
        },
{
    let ghost v0 = a.gfx();
    init_dpi_awareness(a);

    let surf_screen = match a.acquire_window_surface(0) {
        Option::Some(s) => s,
        Option::None => {
            return Err(WSError::ResourceAcquisitionFailed);
        },
    };
    let surf_mem = match a.create_compatible_surface(surf_screen) {
        Option::Some(s) => s,
        Option::None => {
            cleanup_one(a, surf_screen);
            proof {
                assert(a.gfx().surfaces =~= v0.surfaces);
            }
            return Err(WSError::ResourceAcquisitionFailed);
        },
    };
    proof {
        a.inv_wf();
    }
    let ghost v2 = a.gfx();

    let rect = a.virtual_display_rect();
    let dw = rect.width();
    let dh = rect.height();
    if dw < 1 || dh < 1 {
        cleanup_two(a, surf_screen, surf_mem);
        proof {
            assert(a.gfx().surfaces =~= v0.surfaces);
        }
        return Err(WSError::RectUnavailable);
    }
    if !staging_fits(dw, dh) {
        cleanup_two(a, surf_screen, surf_mem);
        proof {
            assert(a.gfx().surfaces =~= v0.surfaces);
        }
        return Err(WSError::ResourceAcquisitionFailed);
    }
    let bmp = match a.create_compatible_bitmap(surf_screen, dw as u32, dh as u32) {
        Option::Some(b) => b,
        Option::None => {
            cleanup_two(a, surf_screen, surf_mem);
            proof {
                assert(a.gfx().surfaces =~= v0.surfaces);
            }
            return Err(WSError::ResourceAcquisitionFailed);
        },
    };
    proof {
        assert forall|s: int| #[trigger] a.gfx().surfaces.dom().contains(s) implies a
            .gfx().surfaces[s].selected != Option::Some(bmp as int) by {
            assert(v2.surfaces.dom().contains(s));
            assert(surf_wf(v2, v2.surfaces[s]));
        }
    }
    if !a.select_bitmap(surf_mem, bmp) {
        cleanup_three(a, surf_screen, surf_mem, bmp);
        proof {
            assert(a.gfx().surfaces =~= v0.surfaces);
            assert(a.gfx().bitmaps =~= v0.bitmaps);
        }
        return Err(WSError::SelectionFailed);
    }
    proof {
        assert forall|s: int| #[trigger] a.gfx().surfaces.dom().contains(s) && s
            != surf_mem as int implies a.gfx().surfaces[s].selected != Option::Some(
            bmp as int,
        ) by {
            assert(v2.surfaces.dom().contains(s));
            assert(surf_wf(v2, v2.surfaces[s]));
        }
    }

    if !a.stretch_copy(surf_mem, dw as u32, dh as u32, surf_screen, rect.left, rect.top) {
        cleanup_four(a, surf_screen, surf_mem, bmp);
        proof {
            assert(a.gfx().surfaces =~= v0.surfaces);
            assert(a.gfx().bitmaps =~= v0.bitmaps);
        }
        return Err(WSError::RenderFailed);
    }

    let bytes_opt = a.read_pixels(surf_mem, bmp, dw as u32, dh as u32, 4);
    let ghost read_view = a.gfx();
    let mut bytes = match bytes_opt {
        Option::Some(b) => b,
        Option::None => {
            cleanup_four(a, surf_screen, surf_mem, bmp);
            proof {
                assert(a.gfx().surfaces =~= v0.surfaces);
                assert(a.gfx().bitmaps =~= v0.bitmaps);
            }
            return Err(WSError::ReadbackFailed);
        },
    };
    cleanup_four(a, surf_screen, surf_mem, bmp);
    let ghost pre_swap = bytes@;
    normalize_channel_order(&mut bytes, 4);
    proof {
        assert(a.gfx().surfaces =~= v0.surfaces);
        assert(a.gfx().bitmaps =~= v0.bitmaps);
        let dwi = v0.display.w as int;
        let dhi = v0.display.h as int;
        let content = read_view.bitmaps[bmp as int].content;
        vstd::arithmetic::div_mod::lemma_div_multiples_vanish(dwi * dhi, 4);
        assert(4 * dwi * dhi == 4 * (dwi * dhi)) by (nonlinear_arith);
        assert(pre_swap.len() as int / 4 == dwi * dhi);
        assert forall|x: int, y: int| 0 <= x < dwi && 0 <= y < dhi implies #[trigger]
            rgb_region_sample(bytes@, 4, v0.display.content, dwi, 0, 0, dwi, x, y) by {
            assert(bgr_region_sample(pre_swap, 4, content, dwi, 0, 0, dwi, x, y));
            assert(pix(content, dwi, x, y) == pix(v0.display.content, dwi, 0 + x, 0 + y));
            assert(y * dwi + x < dwi * dhi) by (nonlinear_arith)
                requires
                    0 <= x < dwi,
                    0 <= y < dhi,
            ;
            assert(swapped_group(pre_swap, bytes@, 4, y * dwi + x));
        }
    }
    Ok(RgbBuf { pixels: bytes, width: dw as u32, height: dh as u32 })
}

} // verus!
