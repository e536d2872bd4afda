//! A fully verified in-memory graphics adapter.
//!
//! It models windows, the virtual display, surfaces and bitmaps as plain
//! vectors, implements every [`GraphicsAdapter`] capability against them,
//! and can inject a failure into the n-th fallible platform call, so tests
//! can drive every error path of the capture pipeline without a display
//! attached. Counters of acquired and released resources and of
//! DPI-awareness side effects are kept for observation; they are not part
//! of the modelled platform state.

use vstd::prelude::*;

use crate::adapter::{
    bmp_wf, copy_in_bounds, copy_post, dim_max, src_h, src_ox, src_oy, src_readable, src_w,
    surf_wf, win_wf, with_bitmap, with_surface, without_bitmap, without_surface, BitmapView,
    DisplayView, GfxView, GraphicsAdapter, SurfaceKind, SurfaceView, WindowView,
};
use crate::capture::Area;
use crate::geom::Rect;
use crate::pixel::{bgr_region_sample, grp, pix, Pixel};

verus! {

/// A synthetic window: dimensions and pixel content of its outer frame and
/// of its client-only region, row-major, top row first.
struct SynWindow {
    full_w: u32,
    full_h: u32,
    client_w: u32,
    client_h: u32,
    full_px: Vec<Pixel>,
    client_px: Vec<Pixel>,
}

/// What a synthetic surface is bound to.
#[derive(Clone, Copy)]
enum SynKind {
    Win(isize),
    Screen,
    Mem,
}

/// A synthetic surface slot; slots are never reused, deletion clears the
/// `alive` flag.
#[derive(Clone, Copy)]
struct SynSurface {
    alive: bool,
    kind: SynKind,
    selected: Option<usize>,
}

/// A synthetic bitmap slot.
struct SynBitmap {
    alive: bool,
    w: u32,
    h: u32,
    px: Vec<Pixel>,
}

/// The verified in-memory platform. Window handles are `1..=n` in creation
/// order; surface and bitmap identifiers are slot indices.
pub struct SyntheticAdapter {
    dpi: bool,
    /// How many times the DPI-awareness side effect actually ran.
    pub dpi_side_effects: u32,
    /// Successful surface and bitmap acquisitions.
    pub acquires: u32,
    /// Surface and bitmap releases.
    pub releases: u32,
    win_tbl: Vec<SynWindow>,
    disp_x: i32,
    disp_y: i32,
    disp_w: u32,
    disp_h: u32,
    disp_px: Vec<Pixel>,
    surf_tbl: Vec<SynSurface>,
    bmp_tbl: Vec<SynBitmap>,
    fail_after: Option<u32>,
}

spec fn win_view(w: SynWindow) -> WindowView {
    WindowView {
        full_w: w.full_w as nat,
        full_h: w.full_h as nat,
        client_w: w.client_w as nat,
        client_h: w.client_h as nat,
        full_content: w.full_px@,
        client_content: w.client_px@,
    }
}

spec fn surf_view(s: SynSurface) -> SurfaceView {
    SurfaceView {
        kind: match s.kind {
            SynKind::Win(h) => SurfaceKind::Window(h as int),
            SynKind::Screen => SurfaceKind::Screen,
            SynKind::Mem => SurfaceKind::Memory,
        },
        selected: match s.selected {
            Option::Some(b) => Option::Some(b as int),
            Option::None => Option::None,
        },
    }
}

spec fn bmp_view(b: SynBitmap) -> BitmapView {
    BitmapView { w: b.w as nat, h: b.h as nat, content: b.px@ }
}

spec fn syn_win_wf(w: SynWindow) -> bool {
    &&& w.full_px@.len() == w.full_w * w.full_h
    &&& w.client_px@.len() == w.client_w * w.client_h
    &&& w.full_w <= dim_max()
    &&& w.full_h <= dim_max()
    &&& w.client_w <= dim_max()
    &&& w.client_h <= dim_max()
}

spec fn syn_bmp_wf(b: SynBitmap) -> bool {
    &&& b.px@.len() == b.w * b.h
    &&& b.w <= dim_max()
    &&& b.h <= dim_max()
}

spec fn syn_surf_ok(a: SyntheticAdapter, s: SynSurface) -> bool {
    match s.kind {
        SynKind::Win(h) => 1 <= h <= a.win_tbl@.len() && s.selected is None,
        SynKind::Screen => s.selected is None,
        SynKind::Mem => match s.selected {
            Option::None => true,
            Option::Some(b) => b < a.bmp_tbl@.len() && a.bmp_tbl@[b as int].alive,
        },
    }
}

impl GraphicsAdapter for SyntheticAdapter {
    closed spec fn gfx(&self) -> GfxView {
        GfxView {
            dpi_aware: self.dpi,
            windows: Map::new(
                |h: int| 1 <= h <= self.win_tbl@.len(),
                |h: int| win_view(self.win_tbl@[h - 1]),
            ),
            display: DisplayView {
                x: self.disp_x as int,
                y: self.disp_y as int,
                w: self.disp_w as nat,
                h: self.disp_h as nat,
                content: self.disp_px@,
            },
            surfaces: Map::new(
                |s: int| 0 <= s < self.surf_tbl@.len() && self.surf_tbl@[s].alive,
                |s: int| surf_view(self.surf_tbl@[s]),
            ),
            bitmaps: Map::new(
                |b: int| 0 <= b < self.bmp_tbl@.len() && self.bmp_tbl@[b].alive,
                |b: int| bmp_view(self.bmp_tbl@[b]),
            ),
        }
    }

    closed spec fn inv(&self) -> bool {
        &&& forall|i: int| 0 <= i < self.win_tbl@.len() ==> syn_win_wf(#[trigger] self.win_tbl@[i])
        &&& self.disp_px@.len() == self.disp_w * self.disp_h
        &&& self.disp_w <= dim_max()
        &&& self.disp_h <= dim_max()
        &&& self.disp_x + self.disp_w <= dim_max()
        &&& self.disp_y + self.disp_h <= dim_max()
        &&& forall|s: int|
            0 <= s < self.surf_tbl@.len() && (#[trigger] self.surf_tbl@[s]).alive ==> syn_surf_ok(
                *self,
                self.surf_tbl@[s],
            )
        &&& forall|b: int|
            0 <= b < self.bmp_tbl@.len() && (#[trigger] self.bmp_tbl@[b]).alive ==> syn_bmp_wf(
                self.bmp_tbl@[b],
            )
    }

    proof fn inv_wf(&self) {
        let v = self.gfx();
        assert forall|h: int| #[trigger] v.windows.dom().contains(h) implies win_wf(
            v.windows[h],
        ) by {
            assert(syn_win_wf(self.win_tbl@[h - 1]));
        }
        assert forall|s: int| #[trigger] v.surfaces.dom().contains(s) implies surf_wf(
            v,
            v.surfaces[s],
        ) by {
            assert(syn_surf_ok(*self, self.surf_tbl@[s]));
        }
        assert forall|b: int| #[trigger] v.bitmaps.dom().contains(b) implies bmp_wf(
            v.bitmaps[b],
        ) by {
            assert(syn_bmp_wf(self.bmp_tbl@[b]));
        }
    }

    fn ensure_dpi_awareness(&mut self) {
        if !self.dpi {
            self.dpi = true;
            self.dpi_side_effects = bump(self.dpi_side_effects);
        }
        proof {
            assert(self.gfx() =~~= (GfxView { dpi_aware: self.gfx().dpi_aware, ..old(self).gfx() }));
            if old(self).gfx().dpi_aware {
                assert(self.gfx() =~~= old(self).gfx());
            }
        }
    }

    fn acquire_window_surface(&mut self, hwnd: isize) -> (r: Option<usize>) {
        if !self.take_op() {
            return Option::None;
        }
        let kind = if hwnd == 0 {
            SynKind::Screen
        } else {
            if hwnd >= 1 && hwnd as usize <= self.win_tbl.len() {
                SynKind::Win(hwnd)
            } else {
                return Option::None;
            }
        };
        let id = self.surf_tbl.len();
        self.surf_tbl.push(SynSurface { alive: true, kind, selected: Option::None });
        self.acquires = bump(self.acquires);
        proof {
            let sv = SurfaceView {
                kind: if hwnd == 0 {
                    SurfaceKind::Screen
                } else {
                    SurfaceKind::Window(hwnd as int)
                },
                selected: Option::None,
            };
            assert(self.gfx() =~~= with_surface(old(self).gfx(), id as int, sv));
        }
        Option::Some(id)
    }

    fn create_compatible_surface(&mut self, src: usize) -> (r: Option<usize>) {
        if !self.take_op() {
            return Option::None;
        }
        let id = self.surf_tbl.len();
        self.surf_tbl.push(SynSurface { alive: true, kind: SynKind::Mem, selected: Option::None });
        self.acquires = bump(self.acquires);
        proof {
            let sv = SurfaceView { kind: SurfaceKind::Memory, selected: Option::None };
            assert(self.gfx() =~~= with_surface(old(self).gfx(), id as int, sv));
        }
        Option::Some(id)
    }

    fn create_compatible_bitmap(&mut self, src: usize, w: u32, h: u32) -> (r: Option<usize>) {
        if !self.take_op() {
            return Option::None;
        }
        proof {
            assert((4 * (w as int)) * (h as int) == 4 * ((w as int) * (h as int)))
                by (nonlinear_arith);
        }
        let n: usize = (w as usize) * (h as usize);
        let px: Vec<Pixel> = vec![Pixel { b: 0, g: 0, r: 0, pad: 0 };n];
        let id = self.bmp_tbl.len();
        self.bmp_tbl.push(SynBitmap { alive: true, w, h, px });
        self.acquires = bump(self.acquires);
        proof {
            assert(self.gfx() =~~= with_bitmap(
                old(self).gfx(),
                id as int,
                self.gfx().bitmaps[id as int],
            ));
        }
        Option::Some(id)
    }

    fn select_bitmap(&mut self, surf: usize, bmp: usize) -> (r: bool) {
        if !self.take_op() {
            return false;
        }
        let mut rec = self.surf_tbl[surf];
        rec.selected = Option::Some(bmp);
        self.surf_tbl[surf] = rec;
        proof {
            let sv = SurfaceView { kind: SurfaceKind::Memory, selected: Option::Some(bmp as int) };
            assert(self.gfx() =~~= with_surface(old(self).gfx(), surf as int, sv));
        }
        true
    }

    fn restore_selection(&mut self, surf: usize) {
        let mut rec = self.surf_tbl[surf];
        rec.selected = Option::None;
        self.surf_tbl[surf] = rec;
        proof {
            let sv = SurfaceView { kind: SurfaceKind::Memory, selected: Option::None };
            assert(self.gfx() =~~= with_surface(old(self).gfx(), surf as int, sv));
        }
    }

    fn block_copy(&mut self, dst: usize, w: u32, h: u32, src: usize, sx: i32, sy: i32) -> (r:
        bool) {
        self.copy_impl(dst, w, h, src, sx, sy)
    }

    fn stretch_copy(&mut self, dst: usize, w: u32, h: u32, src: usize, sx: i32, sy: i32) -> (r:
        bool) {
        self.copy_impl(dst, w, h, src, sx, sy)
    }

    fn render_window(&mut self, hwnd: isize, dst: usize, area: Area) -> (r: bool) {
        if !self.take_op() {
            return false;
        }
        let wi = (hwnd - 1) as usize;
        let out: Vec<Pixel> = if matches!(area, Area::Full) {
            self.win_tbl[wi].full_px.clone()
        } else {
            self.win_tbl[wi].client_px.clone()
        };
        proof {
            if area is Full {
                assert(out@ =~= self.win_tbl@[wi as int].full_px@);
            } else {
                assert(out@ =~= self.win_tbl@[wi as int].client_px@);
            }
        }
        let db = match self.surf_tbl[dst].selected {
            Option::Some(b) => b,
            Option::None => {
                return false;
            },
        };
        let slot = vstd::std_specs::vec::vec_index_mut(&mut self.bmp_tbl, db);
        slot.px = out;
        proof {
            assert(self.gfx() =~~= with_bitmap(
                old(self).gfx(),
                db as int,
                self.gfx().bitmaps[db as int],
            ));
        }
        true
    }

    fn read_pixels(&mut self, surf: usize, bmp: usize, w: u32, h: u32, bpp: u32) -> (r: Option<
        Vec<u8>,
    >) {
        if !self.take_op() {
            return Option::None;
        }
        let ghost content = self.gfx().bitmaps[bmp as int].content;
        let mut bytes: Vec<u8> = Vec::new();
        let mut y: u32 = 0;
        proof {
            assert(content =~= self.bmp_tbl@[bmp as int].px@);
        }
        while y < h
            invariant
                0 <= y <= h,
                bpp == 3 || bpp == 4,
                1 <= w <= dim_max(),
                (bmp as int) < self.bmp_tbl@.len(),
                self.bmp_tbl@[bmp as int].alive,
                self.bmp_tbl@[bmp as int].w == w,
                self.bmp_tbl@[bmp as int].h == h,
                content == self.bmp_tbl@[bmp as int].px@,
                content.len() == w * h,
                bytes@.len() == bpp * (y * w),
                forall|xx: int, yy: int|
                    0 <= xx < w && 0 <= yy < y ==> #[trigger] bgr_region_sample(
                        bytes@,
                        bpp as int,
                        content,
                        w as int,
                        0,
                        0,
                        w as int,
                        xx,
                        yy,
                    ),
            decreases h - y,
        {
            let mut x: u32 = 0;
            while x < w
                invariant
                    0 <= y < h,
                    0 <= x <= w,
                    bpp == 3 || bpp == 4,
                    1 <= w <= dim_max(),
                    (bmp as int) < self.bmp_tbl@.len(),
                    self.bmp_tbl@[bmp as int].alive,
                    self.bmp_tbl@[bmp as int].w == w,
                    self.bmp_tbl@[bmp as int].h == h,
                    content == self.bmp_tbl@[bmp as int].px@,
                    content.len() == w * h,
                    bytes@.len() == bpp * (y * w + x),
                    forall|xx: int, yy: int|
                        0 <= xx < w && 0 <= yy < y ==> #[trigger] bgr_region_sample(
                            bytes@,
                            bpp as int,
                            content,
                            w as int,
                            0,
                            0,
                            w as int,
                            xx,
                            yy,
                        ),
                    forall|xx: int|
                        0 <= xx < x ==> #[trigger] bgr_region_sample(
                            bytes@,
                            bpp as int,
                            content,
                            w as int,
                            0,
                            0,
                            w as int,
                            xx,
                            y as int,
                        ),
                decreases w - x,
            {
                let ghost pre = bytes@;
                proof {
                    assert((y as int) * (w as int) + x < w * h && bpp * ((y as int) * (w as int)
                        + x) + bpp <= bpp * (w * h)) by (nonlinear_arith)
                        requires
                            0 <= x < w,
                            0 <= y < h,
                            bpp >= 1,
                    ;
                    assert((y as int) * (w as int) + (x as int) <= 0xffff_ffff_0000_0000)
                        by (nonlinear_arith)
                        requires
                            0 <= y <= 0xffff_fffe,
                            0 <= w <= 0xffff_ffff,
                            0 <= x <= 0xffff_ffff,
                    ;
                }
                let idx64: u64 = (y as u64) * (w as u64) + (x as u64);
                let np: usize = self.bmp_tbl[bmp].px.len();
                proof {
                    assert(idx64 as int == (y as int) * (w as int) + (x as int));
                    assert((idx64 as int) < np as int);
                }
                let p = self.bmp_tbl[bmp].px[idx64 as usize];
                bytes.push(p.b);
                bytes.push(p.g);
                bytes.push(p.r);
                if bpp == 4 {
                    bytes.push(p.pad);
                }
                proof {
                    let j = (y as int) * (w as int) + (x as int);
                    assert(pix(content, w as int, x as int, y as int) == p);
                    assert forall|xx: int, yy: int|
                        0 <= xx < w && 0 <= yy < y implies #[trigger] bgr_region_sample(
                        bytes@,
                        bpp as int,
                        content,
                        w as int,
                        0,
                        0,
                        w as int,
                        xx,
                        yy,
                    ) by {
                        assert(yy * (w as int) + xx < j && 0 <= yy * (w as int) + xx)
                            by (nonlinear_arith)
                            requires
                                0 <= xx < w,
                                0 <= yy < y,
                                j == (y as int) * (w as int) + (x as int),
                                0 <= x,
                        ;
                        lemma_group_extend(pre, bytes@, bpp as int, yy * (w as int) + xx, j);
                        assert(bgr_region_sample(
                            pre,
                            bpp as int,
                            content,
                            w as int,
                            0,
                            0,
                            w as int,
                            xx,
                            yy,
                        ));
                    }
                    assert forall|xx: int| 0 <= xx < x + 1 implies #[trigger] bgr_region_sample(
                        bytes@,
                        bpp as int,
                        content,
                        w as int,
                        0,
                        0,
                        w as int,
                        xx,
                        y as int,
                    ) by {
                        if xx < x {
                            assert(0 <= (y as int) * (w as int)) by (nonlinear_arith)
                                requires
                                    0 <= y,
                                    0 <= w,
                            ;
                            lemma_group_extend(
                                pre,
                                bytes@,
                                bpp as int,
                                (y as int) * (w as int) + xx,
                                j,
                            );
                            assert(bgr_region_sample(
                                pre,
                                bpp as int,
                                content,
                                w as int,
                                0,
                                0,
                                w as int,
                                xx,
                                y as int,
                            ));
                        } else {
                            assert(grp(bytes@, bpp as int, j, 0) == p.b);
                            assert(grp(bytes@, bpp as int, j, 1) == p.g);
                            assert(grp(bytes@, bpp as int, j, 2) == p.r);
                            if bpp == 4 {
                                assert(grp(bytes@, bpp as int, j, 3) == p.pad);
                            }
                        }
                    }
                }
                x = x + 1;
            }
            proof {
                assert(bpp * ((y as int) * (w as int) + (w as int)) == bpp * (((y as int) + 1) * (
                w as int))) by (nonlinear_arith);
            }
            y = y + 1;
        }
        proof {
            assert(bpp * ((h as int) * (w as int)) == (bpp as int) * (w as int) * (h as int))
                by (nonlinear_arith);
        }
        Option::Some(bytes)
    }

    fn window_rect(&mut self, hwnd: isize) -> (r: Option<Rect>) {
        if !self.take_op() {
            return Option::None;
        }
        if hwnd >= 1 && hwnd as usize <= self.win_tbl.len() {
            let wrec = &self.win_tbl[(hwnd - 1) as usize];
            proof {
                assert(syn_win_wf(self.win_tbl@[hwnd - 1]));
            }
            Option::Some(
                Rect { left: 0, top: 0, right: wrec.full_w as i32, bottom: wrec.full_h as i32 },
            )
        } else {
            Option::None
        }
    }

    fn client_rect(&mut self, hwnd: isize) -> (r: Option<Rect>) {
        if !self.take_op() {
            return Option::None;
        }
        if hwnd >= 1 && hwnd as usize <= self.win_tbl.len() {
            let wrec = &self.win_tbl[(hwnd - 1) as usize];
            proof {
                assert(syn_win_wf(self.win_tbl@[hwnd - 1]));
            }
            Option::Some(
                Rect {
                    left: 0,
                    top: 0,
                    right: wrec.client_w as i32,
                    bottom: wrec.client_h as i32,
                },
            )
        } else {
            Option::None
        }
    }

    fn virtual_display_rect(&mut self) -> (r: Rect) {
        Rect {
            left: self.disp_x,
            top: self.disp_y,
            right: self.disp_x + self.disp_w as i32,
            bottom: self.disp_y + self.disp_h as i32,
        }
    }

    fn release_window_surface(&mut self, surf: usize) {
        let mut rec = self.surf_tbl[surf];
        rec.alive = false;
        self.surf_tbl[surf] = rec;
        self.releases = bump(self.releases);
        proof {
            assert(self.gfx() =~~= without_surface(old(self).gfx(), surf as int));
        }
    }

    fn delete_surface(&mut self, surf: usize) {
        let mut rec = self.surf_tbl[surf];
        rec.alive = false;
        self.surf_tbl[surf] = rec;
        self.releases = bump(self.releases);
        proof {
            assert(self.gfx() =~~= without_surface(old(self).gfx(), surf as int));
        }
    }

    fn delete_bitmap(&mut self, bmp: usize) {
        let slot = vstd::std_specs::vec::vec_index_mut(&mut self.bmp_tbl, bmp);
        slot.alive = false;
        self.releases = bump(self.releases);
        proof {
            assert forall|s: int|
                0 <= s < self.surf_tbl@.len() && (#[trigger] self.surf_tbl@[s]).alive implies
                syn_surf_ok(*self, self.surf_tbl@[s]) by {
                assert(old(self).gfx().surfaces.dom().contains(s));
                assert(old(self).gfx().surfaces[s] == surf_view(old(self).surf_tbl@[s]));
                assert(syn_surf_ok(*old(self), old(self).surf_tbl@[s]));
            }
            assert(self.gfx() =~~= without_bitmap(old(self).gfx(), bmp as int));
        }
    }
}

impl SyntheticAdapter {
    /// A fresh platform with the given virtual-display geometry and
    /// content, no windows, no live resources and the DPI flag unset.
    pub fn new(x: i32, y: i32, w: u32, h: u32, content: Vec<Pixel>) -> (r: SyntheticAdapter)
        requires
            content@.len() == w * h,
            w <= dim_max(),
            h <= dim_max(),
            x + w <= dim_max(),
            y + h <= dim_max(),
        ensures
            r.inv(),
            r.gfx() == (GfxView {
                dpi_aware: false,
                windows: Map::empty(),
                display: DisplayView {
                    x: x as int,
                    y: y as int,
                    w: w as nat,
                    h: h as nat,
                    content: content@,
                },
                surfaces: Map::empty(),
                bitmaps: Map::empty(),
            }),
    {
        let r = SyntheticAdapter {
            dpi: false,
            dpi_side_effects: 0,
            acquires: 0,
            releases: 0,
            win_tbl: Vec::new(),
            disp_x: x,
            disp_y: y,
            disp_w: w,
            disp_h: h,
            disp_px: content,
            surf_tbl: Vec::new(),
            bmp_tbl: Vec::new(),
            fail_after: Option::None,
        };
        proof {
            assert(r.gfx().windows =~= Map::<int, WindowView>::empty());
            assert(r.gfx().surfaces =~= Map::<int, SurfaceView>::empty());
            assert(r.gfx().bitmaps =~= Map::<int, BitmapView>::empty());
        }
        r
    }

    /// Add a synthetic window with the given frame and client dimensions
    /// and content; returns its handle, or zero if no handle is free.
    pub fn add_window(
        &mut self,
        full_w: u32,
        full_h: u32,
        client_w: u32,
        client_h: u32,
        full_px: Vec<Pixel>,
        client_px: Vec<Pixel>,
    ) -> (hwnd: isize)
        requires
            old(self).inv(),
            full_px@.len() == full_w * full_h,
            client_px@.len() == client_w * client_h,
            full_w <= dim_max(),
            full_h <= dim_max(),
            client_w <= dim_max(),
            client_h <= dim_max(),
        ensures
            final(self).inv(),
            hwnd == 0 ==> final(self).gfx() == old(self).gfx(),
            hwnd != 0 ==> 1 <= hwnd && !old(self).gfx().windows.dom().contains(hwnd as int)
                && final(self).gfx() == (GfxView {
                windows: old(self).gfx().windows.insert(
                    hwnd as int,
                    WindowView {
                        full_w: full_w as nat,
                        full_h: full_h as nat,
                        client_w: client_w as nat,
                        client_h: client_h as nat,
                        full_content: full_px@,
                        client_content: client_px@,
                    },
                ),
                ..old(self).gfx()
            }),
    {
        if self.win_tbl.len() >= 0x7fff_fffeusize {
            proof {
                assert(self.gfx() =~~= old(self).gfx());
            }
            return 0;
        }
        let hwnd = (self.win_tbl.len() + 1) as isize;
        self.win_tbl.push(
            SynWindow { full_w, full_h, client_w, client_h, full_px, client_px },
        );
        proof {
            assert(self.gfx() =~~= (GfxView {
                windows: old(self).gfx().windows.insert(
                    hwnd as int,
                    win_view(self.win_tbl@[hwnd - 1]),
                ),
                ..old(self).gfx()
            }));
        }
        hwnd
    }

    /// Make the `n`-th fallible platform call from now on fail; every later
    /// call fails too. `take_op` consumes the countdown.
    pub fn set_failure_after(&mut self, n: u32)
        requires
            old(self).inv(),
        ensures
            final(self).inv(),
            final(self).gfx() == old(self).gfx(),
    {
        self.fail_after = Option::Some(n);
        proof {
            assert(self.gfx() =~~= old(self).gfx());
        }
    }

    /// Consume one fallible-operation slot; false when the injected failure
    /// point has been reached.
    fn take_op(&mut self) -> (ok: bool)
        ensures
            final(self).gfx() == old(self).gfx(),
            final(self).inv() == old(self).inv(),
            final(self).win_tbl == old(self).win_tbl,
            final(self).disp_x == old(self).disp_x,
            final(self).disp_y == old(self).disp_y,
            final(self).disp_w == old(self).disp_w,
            final(self).disp_h == old(self).disp_h,
            final(self).disp_px == old(self).disp_px,
            final(self).surf_tbl == old(self).surf_tbl,
            final(self).bmp_tbl == old(self).bmp_tbl,
            final(self).dpi == old(self).dpi,
    {
        let ok = match self.fail_after {
            Option::None => true,
            Option::Some(0) => false,
            Option::Some(k) => {
                self.fail_after = Option::Some(k - 1);
                true
            },
        };
        proof {
            assert(self.gfx() =~~= old(self).gfx());
        }
        ok
    }

    /// Shared implementation of the two one-for-one pixel copies.
    fn copy_impl(&mut self, dst: usize, w: u32, h: u32, src: usize, sx: i32, sy: i32) -> (r: bool)
        requires
            old(self).inv(),
            old(self).gfx().surfaces.dom().contains(dst as int),
            old(self).gfx().surfaces[dst as int].kind is Memory,
            old(self).gfx().surfaces[dst as int].selected matches Option::Some(b)
                && old(self).gfx().bitmaps.dom().contains(b)
                && old(self).gfx().bitmaps[b].w == w && old(self).gfx().bitmaps[b].h == h,
            src_readable(old(self).gfx(), src as int),
            src as int != dst as int,
            1 <= w,
            1 <= h,
        ensures
            final(self).inv(),
            r ==> copy_post(
                old(self).gfx(),
                final(self).gfx(),
                dst as int,
                w as int,
                h as int,
                src as int,
                sx as int,
                sy as int,
            ),
            !r ==> final(self).gfx() == old(self).gfx(),
    {
        if !self.take_op() {
            return false;
        }
        let srec = self.surf_tbl[src];
        let (sw, sh, ox, oy): (u32, u32, i32, i32) = match srec.kind {
            SynKind::Win(hw) => {
                let wrec = &self.win_tbl[(hw - 1) as usize];
                (wrec.client_w, wrec.client_h, 0, 0)
            },
            SynKind::Screen => (self.disp_w, self.disp_h, self.disp_x, self.disp_y),
            SynKind::Mem => {
                let sb = match srec.selected {
                    Option::Some(b) => b,
                    Option::None => {
                        return false;
                    },
                };
                let brec = &self.bmp_tbl[sb];
                (brec.w, brec.h, 0, 0)
            },
        };
        proof {
            assert(sw == src_w(old(self).gfx(), src as int));
            assert(sh == src_h(old(self).gfx(), src as int));
            assert(ox == src_ox(old(self).gfx(), src as int));
            assert(oy == src_oy(old(self).gfx(), src as int));
        }
        let x0 = sx as i64 - ox as i64;
        let y0 = sy as i64 - oy as i64;
        if x0 < 0 || y0 < 0 || x0 + w as i64 > sw as i64 || y0 + h as i64 > sh as i64 {
            return false;
        }
        let xs = x0 as u32;
        let ys = y0 as u32;
        let out: Vec<Pixel> = match srec.kind {
            SynKind::Win(hw) => {
                proof {
                    assert(syn_win_wf(self.win_tbl@[hw - 1]));
                }
                copy_region_from(&self.win_tbl[(hw - 1) as usize].client_px, sw, sh, xs, ys, w, h)
            },
            SynKind::Screen => copy_region_from(&self.disp_px, sw, sh, xs, ys, w, h),
            SynKind::Mem => {
                let sb = match srec.selected {
                    Option::Some(b) => b,
                    Option::None => {
                        return false;
                    },
                };
                proof {
                    assert(syn_bmp_wf(self.bmp_tbl@[sb as int]));
                }
                copy_region_from(&self.bmp_tbl[sb].px, sw, sh, xs, ys, w, h)
            },
        };
        let db = match self.surf_tbl[dst].selected {
            Option::Some(b) => b,
            Option::None => {
                return false;
            },
        };
        let slot = vstd::std_specs::vec::vec_index_mut(&mut self.bmp_tbl, db);
        slot.px = out;
        proof {
            assert(self.gfx() =~~= with_bitmap(
                old(self).gfx(),
                db as int,
                self.gfx().bitmaps[db as int],
            ));
            assert(copy_in_bounds(
                old(self).gfx(),
                src as int,
                sx as int,
                sy as int,
                w as int,
                h as int,
            ));
        }
        true
    }
}

/// Copy the `w` by `h` region at `(x0, y0)` out of a row-major pixel
/// sequence with rows `sw` pixels wide.
fn copy_region_from(src: &Vec<Pixel>, sw: u32, sh: u32, x0: u32, y0: u32, w: u32, h: u32) -> (out:
    Vec<Pixel>)
    requires
        src@.len() == sw * sh,
        x0 + w <= sw,
        y0 + h <= sh,
    ensures
        out@.len() == w * h,
        forall|x: int, y: int|
            0 <= x < w && 0 <= y < h ==> #[trigger] pix(out@, w as int, x, y) == pix(
                src@,
                sw as int,
                x0 + x,
                y0 + y,
            ),
{
    let mut out: Vec<Pixel> = Vec::new();
    let mut y: u32 = 0;
    while y < h
        invariant
            src@.len() == sw * sh,
            x0 + w <= sw,
            y0 + h <= sh,
            0 <= y <= h,
            out@.len() == y * w,
            forall|xx: int, yy: int|
                0 <= xx < w && 0 <= yy < y ==> #[trigger] pix(out@, w as int, xx, yy) == pix(
                    src@,
                    sw as int,
                    x0 + xx,
                    y0 + yy,
                ),
        decreases h - y,
    {
        let mut x: u32 = 0;
        while x < w
            invariant
                src@.len() == sw * sh,
                x0 + w <= sw,
                y0 + h <= sh,
                0 <= y < h,
                0 <= x <= w,
                out@.len() == y * w + x,
                forall|xx: int, yy: int|
                    0 <= xx < w && 0 <= yy < y ==> #[trigger] pix(out@, w as int, xx, yy) == pix(
                        src@,
                        sw as int,
                        x0 + xx,
                        y0 + yy,
                    ),
                forall|xx: int|
                    0 <= xx < x ==> #[trigger] pix(out@, w as int, xx, y as int) == pix(
                        src@,
                        sw as int,
                        x0 + xx,
                        y0 + y,
                    ),
            decreases w - x,
        {
            let ghost pre = out@;
            proof {
                assert((y0 as int + y as int) * (sw as int) + (x0 as int + x as int) < sw * sh)
                    by (nonlinear_arith)
                    requires
                        0 <= x < w,
                        0 <= y < h,
                        x0 + w <= sw,
                        y0 + h <= sh,
                        0 <= x0,
                        0 <= y0,
                ;
                assert((y0 as int + y as int) * (sw as int) + (x0 as int + x as int)
                    <= 0xffff_ffff_0000_0000) by (nonlinear_arith)
                    requires
                        0 <= y0 as int + y as int <= 0xffff_fffe,
                        0 <= sw <= 0xffff_ffff,
                        0 <= x0 as int + x as int <= 0xffff_ffff,
                ;
            }
            let idx64: u64 = (y0 as u64 + y as u64) * (sw as u64) + (x0 as u64 + x as u64);
            let n: usize = src.len();
            proof {
                assert(idx64 as int == (y0 as int + y as int) * (sw as int) + (x0 as int
                    + x as int));
                assert((idx64 as int) < n as int);
            }
            let p = src[idx64 as usize];
            out.push(p);
            proof {
                assert(pix(src@, sw as int, x0 + x, y0 + y) == p);
                assert(pix(out@, w as int, x as int, y as int) == p);
                assert forall|xx: int, yy: int| 0 <= xx < w && 0 <= yy < y implies #[trigger] pix(
                    out@,
                    w as int,
                    xx,
                    yy,
                ) == pix(src@, sw as int, x0 + xx, y0 + yy) by {
                    assert(0 <= yy * (w as int) + xx < pre.len()) by (nonlinear_arith)
                        requires
                            0 <= xx < w,
                            0 <= yy < y,
                            pre.len() == (y as int) * (w as int) + (x as int),
                            0 <= x,
                    ;
                    assert(pix(pre, w as int, xx, yy) == pix(src@, sw as int, x0 + xx, y0 + yy));
                }
                assert forall|xx: int| 0 <= xx < x + 1 implies #[trigger] pix(
                    out@,
                    w as int,
                    xx,
                    y as int,
                ) == pix(src@, sw as int, x0 + xx, y0 + y) by {
                    if xx < x {
                        assert(0 <= (y as int) * (w as int) + xx < pre.len());
                        assert(pix(pre, w as int, xx, y as int) == pix(
                            src@,
                            sw as int,
                            x0 + xx,
                            y0 + y,
                        ));
                    }
                }
            }
            x = x + 1;
        }
        proof {
            assert((y as int) * (w as int) + (w as int) == ((y as int) + 1) * (w as int))
                by (nonlinear_arith);
        }
        y = y + 1;
    }
    proof {
        assert((h as int) * (w as int) == (w as int) * (h as int)) by (nonlinear_arith);
    }
    out
}

/// Counter increment that never overflows.
fn bump(c: u32) -> u32 {
    if c < u32::MAX {
        c + 1
    } else {
        c
    }
}

/// Extending a packed buffer by whole pixel groups leaves every byte of the
/// already written groups where it was.
proof fn lemma_group_extend(pre: Seq<u8>, post: Seq<u8>, bpp: int, j: int, jnew: int)
    requires
        bpp == 3 || bpp == 4,
        0 <= j < jnew,
        pre.len() == bpp * jnew,
        post.len() >= pre.len(),
        forall|i: int| 0 <= i < pre.len() ==> post[i] == pre[i],
    ensures
        grp(post, bpp, j, 0) == grp(pre, bpp, j, 0),
        grp(post, bpp, j, 1) == grp(pre, bpp, j, 1),
        grp(post, bpp, j, 2) == grp(pre, bpp, j, 2),
        bpp == 4 ==> grp(post, bpp, j, 3) == grp(pre, bpp, j, 3),
{
    assert(bpp * j + bpp <= bpp * jnew) by (nonlinear_arith)
        requires
            j + 1 <= jnew,
            bpp >= 1,
    ;
}

} // verus!
