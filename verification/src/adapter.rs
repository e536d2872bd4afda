//! The platform graphics adapter: the capability set the capture pipeline
//! drives, specified over a mathematical view of the platform's state.
//!
//! The view models the windows and the virtual display with their pixel
//! content, the live drawing surfaces and offscreen bitmaps, and the
//! process-wide DPI-awareness flag. Every verified property of the pipeline
//! holds for any adapter whose methods meet these contracts; the library
//! ships one fully verified adapter, [`crate::synthetic::SyntheticAdapter`].

use vstd::prelude::*;

use crate::capture::Area;
use crate::geom::Rect;
use crate::pixel::{bgr_region_sample, pix, Pixel};

verus! {

/// One window as the platform sees it: its outer-frame and client-only
/// dimensions, and the pixel content of each region, row-major, top row
/// first.
#[verifier::ext_equal]
pub struct WindowView {
    pub full_w: nat,
    pub full_h: nat,
    pub client_w: nat,
    pub client_h: nat,
    pub full_content: Seq<Pixel>,
    pub client_content: Seq<Pixel>,
}

/// The virtual display: the bounding box of all attached monitors, with its
/// origin and pixel content, row-major, top row first.
#[verifier::ext_equal]
pub struct DisplayView {
    pub x: int,
    pub y: int,
    pub w: nat,
    pub h: nat,
    pub content: Seq<Pixel>,
}

/// What a live drawing surface is bound to.
pub enum SurfaceKind {
    /// The client-area surface of a window.
    Window(int),
    /// The surface of the whole virtual display.
    Screen,
    /// An offscreen compatible surface; pixels are read from and rendered to
    /// the bitmap selected into it.
    Memory,
}

/// A live drawing surface and the bitmap currently selected into it.
#[verifier::ext_equal]
pub struct SurfaceView {
    pub kind: SurfaceKind,
    pub selected: Option<int>,
}

/// A live offscreen bitmap with its dimensions and pixel content.
#[verifier::ext_equal]
pub struct BitmapView {
    pub w: nat,
    pub h: nat,
    pub content: Seq<Pixel>,
}

/// The whole platform graphics state.
#[verifier::ext_equal]
pub struct GfxView {
    pub dpi_aware: bool,
    pub windows: Map<int, WindowView>,
    pub display: DisplayView,
    pub surfaces: Map<int, SurfaceView>,
    pub bitmaps: Map<int, BitmapView>,
}

/// Dimension bound every modelled rectangle side respects, so that widths and
/// heights fit the platform's signed 32-bit coordinates.
pub open spec fn dim_max() -> int {
    0x7fff_ffff
}

/// A window's content sequences match its dimensions, and the dimensions fit
/// the platform's coordinate range.
pub open spec fn win_wf(w: WindowView) -> bool {
    &&& w.full_content.len() == w.full_w * w.full_h
    &&& w.client_content.len() == w.client_w * w.client_h
    &&& w.full_w <= dim_max()
    &&& w.full_h <= dim_max()
    &&& w.client_w <= dim_max()
    &&& w.client_h <= dim_max()
}

/// The display's content matches its dimensions and its rectangle fits the
/// platform's coordinate range.
pub open spec fn display_wf(d: DisplayView) -> bool {
    &&& d.content.len() == d.w * d.h
    &&& d.w <= dim_max()
    &&& d.h <= dim_max()
    &&& -0x8000_0000 <= d.x
    &&& -0x8000_0000 <= d.y
    &&& d.x + d.w <= dim_max()
    &&& d.y + d.h <= dim_max()
}

/// A bitmap's content matches its dimensions.
pub open spec fn bmp_wf(b: BitmapView) -> bool {
    &&& b.content.len() == b.w * b.h
    &&& b.w <= dim_max()
    &&& b.h <= dim_max()
}

/// A surface refers only to things that exist: its window is modelled, and a
/// selected bitmap is live. Only memory surfaces hold a selection.
pub open spec fn surf_wf(v: GfxView, s: SurfaceView) -> bool {
    match s.kind {
        SurfaceKind::Window(h) => v.windows.dom().contains(h) && s.selected is None,
        SurfaceKind::Screen => s.selected is None,
        SurfaceKind::Memory => match s.selected {
            Option::None => true,
            Option::Some(b) => v.bitmaps.dom().contains(b),
        },
    }
}

/// Well-formedness of the whole view.
pub open spec fn view_wf(v: GfxView) -> bool {
    &&& forall|h: int| #[trigger] v.windows.dom().contains(h) ==> win_wf(v.windows[h])
    &&& display_wf(v.display)
    &&& forall|s: int| #[trigger] v.surfaces.dom().contains(s) ==> surf_wf(v, v.surfaces[s])
    &&& forall|b: int| #[trigger] v.bitmaps.dom().contains(b) ==> bmp_wf(v.bitmaps[b])
}

/// The view with one surface added or replaced.
pub open spec fn with_surface(v: GfxView, id: int, s: SurfaceView) -> GfxView {
    GfxView { surfaces: v.surfaces.insert(id, s), ..v }
}

/// The view with one surface removed.
pub open spec fn without_surface(v: GfxView, id: int) -> GfxView {
    GfxView { surfaces: v.surfaces.remove(id), ..v }
}

/// The view with one bitmap added or replaced.
pub open spec fn with_bitmap(v: GfxView, id: int, b: BitmapView) -> GfxView {
    GfxView { bitmaps: v.bitmaps.insert(id, b), ..v }
}

/// The view with one bitmap removed.
pub open spec fn without_bitmap(v: GfxView, id: int) -> GfxView {
    GfxView { bitmaps: v.bitmaps.remove(id), ..v }
}

/// The two views agree on everything but the DPI-awareness flag.
pub open spec fn same_except_dpi(pre: GfxView, post: GfxView) -> bool {
    post == GfxView { dpi_aware: post.dpi_aware, ..pre }
}

/// The bitmap selected into a memory surface.
pub open spec fn selected_bmp(v: GfxView, s: int) -> int {
    match v.surfaces[s].selected {
        Option::Some(b) => b,
        Option::None => 0,
    }
}

/// A surface can act as the source of a pixel copy: its window is modelled,
/// or, for a memory surface, a live bitmap is selected into it.
pub open spec fn src_readable(v: GfxView, s: int) -> bool {
    &&& v.surfaces.dom().contains(s)
    &&& match v.surfaces[s].kind {
        SurfaceKind::Window(h) => v.windows.dom().contains(h),
        SurfaceKind::Screen => true,
        SurfaceKind::Memory => v.surfaces[s].selected matches Option::Some(b)
            && v.bitmaps.dom().contains(b),
    }
}

/// The pixel content readable from a source surface: a window surface reads
/// the window's client area, the screen surface the virtual display, a
/// memory surface its selected bitmap.
pub open spec fn src_content(v: GfxView, s: int) -> Seq<Pixel> {
    match v.surfaces[s].kind {
        SurfaceKind::Window(h) => v.windows[h].client_content,
        SurfaceKind::Screen => v.display.content,
        SurfaceKind::Memory => v.bitmaps[selected_bmp(v, s)].content,
    }
}

/// Width in pixels of a source surface's readable content.
pub open spec fn src_w(v: GfxView, s: int) -> int {
    match v.surfaces[s].kind {
        SurfaceKind::Window(h) => v.windows[h].client_w as int,
        SurfaceKind::Screen => v.display.w as int,
        SurfaceKind::Memory => v.bitmaps[selected_bmp(v, s)].w as int,
    }
}

/// Height in pixels of a source surface's readable content.
pub open spec fn src_h(v: GfxView, s: int) -> int {
    match v.surfaces[s].kind {
        SurfaceKind::Window(h) => v.windows[h].client_h as int,
        SurfaceKind::Screen => v.display.h as int,
        SurfaceKind::Memory => v.bitmaps[selected_bmp(v, s)].h as int,
    }
}

/// Horizontal origin of a source surface's coordinate space: the screen
/// surface is addressed in virtual-display coordinates, everything else from
/// zero.
pub open spec fn src_ox(v: GfxView, s: int) -> int {
    match v.surfaces[s].kind {
        SurfaceKind::Screen => v.display.x,
        _ => 0,
    }
}

/// Vertical origin of a source surface's coordinate space.
pub open spec fn src_oy(v: GfxView, s: int) -> int {
    match v.surfaces[s].kind {
        SurfaceKind::Screen => v.display.y,
        _ => 0,
    }
}

/// The `w` by `h` rectangle at `(sx, sy)` lies inside the source surface's
/// readable content.
pub open spec fn copy_in_bounds(v: GfxView, s: int, sx: int, sy: int, w: int, h: int) -> bool {
    &&& sx - src_ox(v, s) >= 0
    &&& sy - src_oy(v, s) >= 0
    &&& sx - src_ox(v, s) + w <= src_w(v, s)
    &&& sy - src_oy(v, s) + h <= src_h(v, s)
}

/// `c` is exactly the `w` by `h` region of `s` (rows `sw` pixels wide) whose
/// top-left corner is `(x0, y0)`.
pub open spec fn region_copied(
    c: Seq<Pixel>,
    w: int,
    h: int,
    s: Seq<Pixel>,
    sw: int,
    x0: int,
    y0: int,
) -> bool {
    &&& c.len() == w * h
    &&& forall|x: int, y: int|
        0 <= x < w && 0 <= y < h ==> #[trigger] pix(c, w, x, y) == pix(s, sw, x0 + x, y0 + y)
}

/// The effect of a successful pixel copy of a `w` by `h` rectangle at
/// `(sx, sy)` from source surface `src` into the bitmap selected into `dst`:
/// the rectangle was in bounds, and only that bitmap changed, now holding
/// exactly the copied region.
pub open spec fn copy_post(
    pre: GfxView,
    post: GfxView,
    dst: int,
    w: int,
    h: int,
    src: int,
    sx: int,
    sy: int,
) -> bool {
    let b = selected_bmp(pre, dst);
    &&& copy_in_bounds(pre, src, sx, sy, w, h)
    &&& post == with_bitmap(
        pre,
        b,
        BitmapView { w: w as nat, h: h as nat, content: post.bitmaps[b].content },
    )
    &&& region_copied(
        post.bitmaps[b].content,
        w,
        h,
        src_content(pre, src),
        src_w(pre, src),
        sx - src_ox(pre, src),
        sy - src_oy(pre, src),
    )
}

/// The capability set of the platform graphics subsystem, as the capture
/// pipeline uses it. Every method that acquires may fail; every failure
/// leaves the state unchanged; releases are modelled as infallible, matching
/// a platform whose release calls' status the caller ignores.
pub trait GraphicsAdapter: Sized {
    /// The mathematical view of the platform state.
    spec fn gfx(&self) -> GfxView;

    /// The adapter's own invariant; it implies the view is well formed.
    spec fn inv(&self) -> bool;

    /// The invariant implies well-formedness of the view.
    proof fn inv_wf(&self)
        requires
            self.inv(),
        ensures
            view_wf(self.gfx()),
    ;

    /// Best-effort, idempotent, process-wide DPI-awareness initialization.
    /// It never fails; once the flag is set, calling again changes nothing.
    fn ensure_dpi_awareness(&mut self)
        requires
            old(self).inv(),
        ensures
            final(self).inv(),
            same_except_dpi(old(self).gfx(), final(self).gfx()),
            old(self).gfx().dpi_aware ==> final(self).gfx() == old(self).gfx(),
    ;

    /// Acquire the drawing surface of a window's client area, or of the whole
    /// screen when `hwnd` is zero.
    fn acquire_window_surface(&mut self, hwnd: isize) -> (r: Option<usize>)
        requires
            old(self).inv(),
        ensures
            final(self).inv(),
            match r {
                Option::Some(id) => {
                    &&& !old(self).gfx().surfaces.dom().contains(id as int)
                    &&& (hwnd != 0 ==> old(self).gfx().windows.dom().contains(hwnd as int))
                    &&& final(self).gfx() == with_surface(
                        old(self).gfx(),
                        id as int,
                        SurfaceView {
                            kind: if hwnd == 0 {
                                SurfaceKind::Screen
                            } else {
                                SurfaceKind::Window(hwnd as int)
                            },
                            selected: Option::None,
                        },
                    )
                },
                Option::None => final(self).gfx() == old(self).gfx(),
            },
    ;

    /// Create an offscreen surface compatible with an existing one.
    fn create_compatible_surface(&mut self, src: usize) -> (r: Option<usize>)
        requires
            old(self).inv(),
            old(self).gfx().surfaces.dom().contains(src as int),
        ensures
            final(self).inv(),
            match r {
                Option::Some(id) => !old(self).gfx().surfaces.dom().contains(id as int)
                    && final(self).gfx() == with_surface(
                    old(self).gfx(),
                    id as int,
                    SurfaceView { kind: SurfaceKind::Memory, selected: Option::None },
                ),
                Option::None => final(self).gfx() == old(self).gfx(),
            },
    ;

    /// Create a `w` by `h` offscreen bitmap compatible with a surface. The
    /// new bitmap's content is unspecified until something renders into it.
    fn create_compatible_bitmap(&mut self, src: usize, w: u32, h: u32) -> (r: Option<usize>)
        requires
            old(self).inv(),
            old(self).gfx().surfaces.dom().contains(src as int),
            1 <= w <= dim_max(),
            1 <= h <= dim_max(),
            4 * (w as int) * (h as int) <= u32::MAX,
        ensures
            final(self).inv(),
            match r {
                Option::Some(id) => {
                    &&& !old(self).gfx().bitmaps.dom().contains(id as int)
                    &&& final(self).gfx().bitmaps.dom().contains(id as int)
                    &&& final(self).gfx().bitmaps[id as int].w == w
                    &&& final(self).gfx().bitmaps[id as int].h == h
                    &&& final(self).gfx() == with_bitmap(
                        old(self).gfx(),
                        id as int,
                        final(self).gfx().bitmaps[id as int],
                    )
                },
                Option::None => final(self).gfx() == old(self).gfx(),
            },
    ;

    /// Select a bitmap into a memory surface, making it the surface's render
    /// target and readable content.
    fn select_bitmap(&mut self, surf: usize, bmp: usize) -> (r: bool)
        requires
            old(self).inv(),
            old(self).gfx().surfaces.dom().contains(surf as int),
            old(self).gfx().surfaces[surf as int].kind is Memory,
            old(self).gfx().surfaces[surf as int].selected is None,
            old(self).gfx().bitmaps.dom().contains(bmp as int),
        ensures
            final(self).inv(),
            r ==> final(self).gfx() == with_surface(
                old(self).gfx(),
                surf as int,
                SurfaceView { kind: SurfaceKind::Memory, selected: Option::Some(bmp as int) },
            ),
            !r ==> final(self).gfx() == old(self).gfx(),
    ;

    /// Restore a memory surface's original (empty) selection, so the
    /// previously selected bitmap can be deleted before the surface is.
    fn restore_selection(&mut self, surf: usize)
        requires
            old(self).inv(),
            old(self).gfx().surfaces.dom().contains(surf as int),
            old(self).gfx().surfaces[surf as int].kind is Memory,
        ensures
            final(self).inv(),
            final(self).gfx() == with_surface(
                old(self).gfx(),
                surf as int,
                SurfaceView { kind: SurfaceKind::Memory, selected: Option::None },
            ),
    ;

    /// Copy the `w` by `h` rectangle at `(sx, sy)` of a source surface into
    /// the bitmap selected into `dst` in a single pass.
    fn block_copy(&mut self, dst: usize, w: u32, h: u32, src: usize, sx: i32, sy: i32) -> (r:
        bool)
        requires
            old(self).inv(),
            old(self).gfx().surfaces.dom().contains(dst as int),
            old(self).gfx().surfaces[dst as int].kind is Memory,
            old(self).gfx().surfaces[dst as int].selected matches Option::Some(b)
                && old(self).gfx().bitmaps.dom().contains(b)
                && old(self).gfx().bitmaps[b].w == w && old(self).gfx().bitmaps[b].h == h,
            src_readable(old(self).gfx(), src as int),
            src as int != dst as int,
            1 <= w,
            1 <= h,
        ensures
            final(self).inv(),
            r ==> copy_post(
                old(self).gfx(),
                final(self).gfx(),
                dst as int,
                w as int,
                h as int,
                src as int,
                sx as int,
                sy as int,
            ),
            !r ==> final(self).gfx() == old(self).gfx(),
    ;

    /// Copy a rectangle between surfaces with a stretching copy at identical
    /// source and destination extents, which moves pixels one for one.
    fn stretch_copy(&mut self, dst: usize, w: u32, h: u32, src: usize, sx: i32, sy: i32) -> (r:
        bool)
        requires
            old(self).inv(),
            old(self).gfx().surfaces.dom().contains(dst as int),
            old(self).gfx().surfaces[dst as int].kind is Memory,
            old(self).gfx().surfaces[dst as int].selected matches Option::Some(b)
                && old(self).gfx().bitmaps.dom().contains(b)
                && old(self).gfx().bitmaps[b].w == w && old(self).gfx().bitmaps[b].h == h,
            src_readable(old(self).gfx(), src as int),
            src as int != dst as int,
            1 <= w,
            1 <= h,
        ensures
            final(self).inv(),
            r ==> copy_post(
                old(self).gfx(),
                final(self).gfx(),
                dst as int,
                w as int,
                h as int,
                src as int,
                sx as int,
                sy as int,
            ),
            !r ==> final(self).gfx() == old(self).gfx(),
    ;

    /// Ask a window to paint itself into the bitmap selected into `dst`:
    /// the full frame for `Area::Full`, the client region only for
    /// `Area::ClientOnly`. Works for occluded windows; may fail for
    /// protected or access-restricted ones.
    fn render_window(&mut self, hwnd: isize, dst: usize, area: Area) -> (r: bool)
        requires
            old(self).inv(),
            old(self).gfx().windows.dom().contains(hwnd as int),
            old(self).gfx().surfaces.dom().contains(dst as int),
            old(self).gfx().surfaces[dst as int].kind is Memory,
            old(self).gfx().surfaces[dst as int].selected matches Option::Some(b)
                && old(self).gfx().bitmaps.dom().contains(b)
                && old(self).gfx().bitmaps[b].w == (if area is Full {
                    old(self).gfx().windows[hwnd as int].full_w
                } else {
                    old(self).gfx().windows[hwnd as int].client_w
                })
                && old(self).gfx().bitmaps[b].h == (if area is Full {
                    old(self).gfx().windows[hwnd as int].full_h
                } else {
                    old(self).gfx().windows[hwnd as int].client_h
                }),
        ensures
            final(self).inv(),
            r ==> final(self).gfx() == with_bitmap(
                old(self).gfx(),
                selected_bmp(old(self).gfx(), dst as int),
                BitmapView {
                    w: if area is Full {
                        old(self).gfx().windows[hwnd as int].full_w
                    } else {
                        old(self).gfx().windows[hwnd as int].client_w
                    },
                    h: if area is Full {
                        old(self).gfx().windows[hwnd as int].full_h
                    } else {
                        old(self).gfx().windows[hwnd as int].client_h
                    },
                    content: if area is Full {
                        old(self).gfx().windows[hwnd as int].full_content
                    } else {
                        old(self).gfx().windows[hwnd as int].client_content
                    },
                },
            ),
            !r ==> final(self).gfx() == old(self).gfx(),
    ;

    /// Read the pixels of a bitmap back into a tightly packed buffer, top row
    /// first, at `bpp` bytes per pixel in blue-green-red(-pad) order.
    fn read_pixels(&mut self, surf: usize, bmp: usize, w: u32, h: u32, bpp: u32) -> (r: Option<
        Vec<u8>,
    >)
        requires
            old(self).inv(),
            old(self).gfx().surfaces.dom().contains(surf as int),
            old(self).gfx().bitmaps.dom().contains(bmp as int),
            old(self).gfx().bitmaps[bmp as int].w == w,
            old(self).gfx().bitmaps[bmp as int].h == h,
            bpp == 3 || bpp == 4,
            1 <= w,
            1 <= h,
            4 * (w as int) * (h as int) <= u32::MAX,
        ensures
            final(self).inv(),
            final(self).gfx() == old(self).gfx(),
            match r {
                Option::Some(bytes) => bytes@.len() == bpp * w * h && forall|x: int, y: int|
                    0 <= x < w && 0 <= y < h ==> #[trigger] bgr_region_sample(
                        bytes@,
                        bpp as int,
                        old(self).gfx().bitmaps[bmp as int].content,
                        w as int,
                        0,
                        0,
                        w as int,
                        x,
                        y,
                    ),
                Option::None => true,
            },
    ;

    /// Query a window's outer-frame rectangle. `None` when the platform
    /// cannot resolve it.
    fn window_rect(&mut self, hwnd: isize) -> (r: Option<Rect>)
        requires
            old(self).inv(),
        ensures
            final(self).inv(),
            final(self).gfx() == old(self).gfx(),
            match r {
                Option::Some(rect) => {
                    &&& old(self).gfx().windows.dom().contains(hwnd as int)
                    &&& rect.wf()
                    &&& rect.spec_width() == old(self).gfx().windows[hwnd as int].full_w
                    &&& rect.spec_height() == old(self).gfx().windows[hwnd as int].full_h
                },
                Option::None => true,
            },
    ;

    /// Query a window's client-only rectangle. `None` when the platform
    /// cannot resolve it.
    fn client_rect(&mut self, hwnd: isize) -> (r: Option<Rect>)
        requires
            old(self).inv(),
        ensures
            final(self).inv(),
            final(self).gfx() == old(self).gfx(),
            match r {
                Option::Some(rect) => {
                    &&& old(self).gfx().windows.dom().contains(hwnd as int)
                    &&& rect.wf()
                    &&& rect.spec_width() == old(self).gfx().windows[hwnd as int].client_w
                    &&& rect.spec_height() == old(self).gfx().windows[hwnd as int].client_h
                },
                Option::None => true,
            },
    ;

    /// Query the origin and size of the virtual display's bounding box.
    fn virtual_display_rect(&mut self) -> (r: Rect)
        requires
            old(self).inv(),
        ensures
            final(self).inv(),
            final(self).gfx() == old(self).gfx(),
            r.wf(),
            r.left == old(self).gfx().display.x,
            r.top == old(self).gfx().display.y,
            r.spec_width() == old(self).gfx().display.w,
            r.spec_height() == old(self).gfx().display.h,
    ;

    /// Release a window or screen surface back to the platform.
    fn release_window_surface(&mut self, surf: usize)
        requires
            old(self).inv(),
            old(self).gfx().surfaces.dom().contains(surf as int),
            !(old(self).gfx().surfaces[surf as int].kind is Memory),
        ensures
            final(self).inv(),
            final(self).gfx() == without_surface(old(self).gfx(), surf as int),
    ;

    /// Delete a memory surface. Its selection must have been restored first.
    fn delete_surface(&mut self, surf: usize)
        requires
            old(self).inv(),
            old(self).gfx().surfaces.dom().contains(surf as int),
            old(self).gfx().surfaces[surf as int].kind is Memory,
            old(self).gfx().surfaces[surf as int].selected is None,
        ensures
            final(self).inv(),
            final(self).gfx() == without_surface(old(self).gfx(), surf as int),
    ;

    /// Delete an offscreen bitmap. It must not be selected into any live
    /// surface.
    fn delete_bitmap(&mut self, bmp: usize)
        requires
            old(self).inv(),
            old(self).gfx().bitmaps.dom().contains(bmp as int),
            forall|s: int| #[trigger]
                old(self).gfx().surfaces.dom().contains(s) ==> old(
                    self,
                ).gfx().surfaces[s].selected != Option::Some(bmp as int),
        ensures
            final(self).inv(),
            final(self).gfx() == without_bitmap(old(self).gfx(), bmp as int),
    ;
}

} // verus!
