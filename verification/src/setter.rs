//! The setter's verified state: the tracked root surfaces with their
//! monitor rectangles and backing-pixmap identities, the shared canvas,
//! and the decisions of refresh, resize polling, placement and fade
//! preparation.  The caller performs the server round trips and feeds the
//! replies in as plain values.

use vstd::prelude::*;

use crate::BgError;
use crate::canvas::{Canvas, canvas_fits, chan_at, spec_min};
use crate::pixel::{ByteOrder, RgbData};

verus! {

/// Placement of one physical display inside a root surface.
#[derive(Debug, PartialEq, Eq, Structural, Clone, Copy)]
pub struct Display {
    pub width: u16,
    pub height: u16,
    pub x: i16,
    pub y: i16,
}

/// What the output-configuration query reports for one output: the raw
/// connection state (1 means disconnected), the identifier of the display
/// controller driving the output (0 when none is bound), and that
/// controller's rectangle.
#[derive(Debug, PartialEq, Eq, Structural, Clone, Copy)]
pub struct OutputReport {
    pub connection: u8,
    pub crtc: u32,
    pub x: i16,
    pub y: i16,
    pub width: u16,
    pub height: u16,
}

/// One screen as the server enumerates it: its root window, its full
/// dimensions, and the outputs reported for it.
pub struct ScreenInfo {
    pub root: u32,
    pub width: u16,
    pub height: u16,
    pub outputs: Vec<OutputReport>,
}

/// One tracked root surface.
pub struct Root {
    pub index: usize,
    pub root: u32,
    pub width: u16,
    pub height: u16,
    pub pid: u32,
    pub sizes: Vec<Display>,
}

/// An output counts as a monitor when it is not reported disconnected and
/// a display controller is bound to it.
pub open spec fn output_kept(o: OutputReport) -> bool {
    o.connection != 1 && o.crtc != 0
}

/// The monitor rectangle of an output.
pub open spec fn rect_of(o: OutputReport) -> Display {
    Display { width: o.width, height: o.height, x: o.x, y: o.y }
}

/// The monitor rectangles of the kept outputs, in reported order.
pub open spec fn spec_monitor_rects(s: Seq<OutputReport>) -> Seq<Display>
    decreases s.len(),
{
    if s.len() == 0 {
        Seq::empty()
    } else {
        let rest = spec_monitor_rects(s.drop_last());
        if output_kept(s.last()) {
            rest.push(rect_of(s.last()))
        } else {
            rest
        }
    }
}

/// Collects the monitor rectangles of the kept outputs, skipping outputs
/// that are disconnected or lack a display controller.
pub fn monitor_rects(outputs: &Vec<OutputReport>) -> (r: Vec<Display>)
    ensures
        r@ == spec_monitor_rects(outputs@),
{
    let mut r: Vec<Display> = Vec::new();
    let mut k: usize = 0;
    while k < outputs.len()
        invariant
            k <= outputs@.len(),
            r@ == spec_monitor_rects(outputs@.take(k as int)),
        decreases outputs@.len() - k,
    {
        let o = outputs[k];
        if !(o.connection == 1 || o.crtc == 0) {
            r.push(Display { width: o.width, height: o.height, x: o.x, y: o.y });
        }
        proof {
            assert(outputs@.take(k as int + 1).drop_last() =~= outputs@.take(k as int));
            assert(outputs@.take(k as int + 1).last() == outputs@[k as int]);
        }
        k = k + 1;
    }
    proof {
        assert(outputs@.take(outputs@.len() as int) =~= outputs@);
    }
    r
}

/// Whether some tracked root surface has the given window identity.
pub open spec fn root_tracked(roots: Seq<Root>, window: u32) -> bool {
    exists|k: int| 0 <= k < roots.len() && #[trigger] roots[k].root == window
}

/// Whether a queued notification reports a resize of a tracked root
/// surface.
pub open spec fn spec_resize_match(roots: Seq<Root>, ev: XEvent) -> bool {
    match ev {
        XEvent::Resize { window } => root_tracked(roots, window),
        _ => false,
    }
}

/// A decoded notification from the server's event queue.
#[derive(Debug, PartialEq, Eq, Structural, Clone, Copy)]
pub enum XEvent {
    /// A connection-level error report with its error code.
    Error { code: u8 },
    /// A resize request for a window.
    Resize { window: u32 },
    /// Any other notification kind.
    Unknown { kind: u8 },
}

/// What the compositor left in a canvas after copying a whole image into
/// it: every image pixel's channels stand at their packed byte offsets.
pub open spec fn composed_region(c: Canvas, rgb: &RgbData) -> bool {
    forall|ix: int, iy: int|
        0 <= ix < rgb.width && 0 <= iy < rgb.height ==> {
            &&& chan_at(c.data@, c.stride as int, ix, iy, 0) == rgb.spec_pix(ix, iy).b
            &&& chan_at(c.data@, c.stride as int, ix, iy, 1) == rgb.spec_pix(ix, iy).g
            &&& chan_at(c.data@, c.stride as int, ix, iy, 2) == rgb.spec_pix(ix, iy).r
        }
}

/// The larger of two lengths.
pub open spec fn spec_max(a: int, b: int) -> int {
    if a >= b {
        a
    } else {
        b
    }
}

/// A dimension pair within 16-bit bounds fits in memory whenever the
/// largest canvas does.
pub proof fn lemma_fits_mono(w: int, h: int)
    requires
        canvas_fits(0xFFFF, 0xFFFF),
        0 <= w <= 0xFFFF,
        0 <= h <= 0xFFFF,
    ensures
        canvas_fits(w, h),
{
    assert(4 * w * h <= 4 * 0xFFFF * 0xFFFF) by (nonlinear_arith)
        requires
            0 <= w <= 0xFFFF && 0 <= h <= 0xFFFF,
    ;
}

/// Outcome of a placement request.
#[derive(Debug, PartialEq, Eq, Structural, Clone, Copy)]
pub enum Placement {
    /// The canvas holds the image; the caller transfers it to the backing
    /// pixmap at the given destination and announces the pixmap.
    Placed { pid: u32, window: u32, x: u16, y: u16, w: u16, h: u16 },
    /// The requested origin lies outside the root surface; nothing was done.
    Skipped,
}

/// Outcome of preparing a fade.
#[derive(Debug, PartialEq, Eq, Structural, Clone, Copy)]
pub enum FadePrep {
    /// The requested origin lies outside the root surface; the fade is a
    /// no-op.
    Skip,
    /// The canvas view now matches the fade rectangle; the caller captures
    /// the on-screen pixels into it, builds the deltas, and runs the loop.
    Run { pid: u32, window: u32, width: u16, height: u16, replaced: bool },
}

/// The background setter's tracked state.
pub struct XBgSetter {
    pub roots: Vec<Root>,
    pub canvas: Canvas,
    pub verbose: bool,
}

impl XBgSetter {
    /// The canvas is sound and uses the one packed layout the compositor
    /// understands.
    pub open spec fn wf(&self) -> bool {
        &&& self.canvas.wf()
        &&& self.canvas.byte_order == ByteOrder::LsbFirst
    }

    /// Builds the setter around an allocated canvas.  Fails when the server
    /// reported no screen at all.
    pub fn new(canvas: Canvas, screen_count: usize) -> (r: Result<XBgSetter, BgError>)
        requires
            canvas.wf(),
            canvas.byte_order == ByteOrder::LsbFirst,
        ensures
            screen_count > 0 ==> (r matches Ok(s) && s.wf() && s.roots@.len() == 0 && s.canvas
                == canvas && !s.verbose),
            screen_count == 0 ==> (r matches Err(e) && e == BgError::NoRoot),
    {
        if screen_count > 0 {
            Ok(XBgSetter { roots: Vec::new(), canvas, verbose: false })
        } else {
            Err(BgError::NoRoot)
        }
    }

    /// Switches diagnostic verbosity.
    pub fn set_verbose(&mut self, verbose: bool)
        ensures
            *final(self) == (XBgSetter { verbose, ..*old(self) }),
    {
        self.verbose = verbose;
    }

    /// Number of tracked root surfaces.
    pub fn count(&self) -> (n: usize)
        ensures
            n == self.roots@.len(),
    {
        self.roots.len()
    }

    /// Number of monitors tracked for a screen.
    pub fn get_display_count(&self, index: usize) -> (n: usize)
        requires
            index < self.roots@.len(),
        ensures
            n == self.roots@[index as int].sizes@.len(),
    {
        self.roots[index].sizes.len()
    }

    /// The dimensions of every monitor of a screen, in tracked order.
    pub fn get_displays(&self, index: usize) -> (v: Vec<(u16, u16)>)
        requires
            index < self.roots@.len(),
        ensures
            v@.len() == self.roots@[index as int].sizes@.len(),
            forall|k: int|
                0 <= k < v@.len() ==> #[trigger] v@[k] == (
                    self.roots@[index as int].sizes@[k].width,
                    self.roots@[index as int].sizes@[k].height,
                ),
    {
        let sizes = &self.roots[index].sizes;
        let mut v: Vec<(u16, u16)> = Vec::new();
        let mut k: usize = 0;
        while k < sizes.len()
            invariant
                k <= sizes@.len(),
                v@.len() == k,
                forall|j: int|
                    0 <= j < k ==> #[trigger] v@[j] == (sizes@[j].width, sizes@[j].height),
        decreases sizes@.len() - k,
        {
            let d = sizes[k];
            v.push((d.width, d.height));
            k = k + 1;
        }
        v
    }

    /// The dimensions of one monitor.
    pub fn display_dim(&self, screen: usize, display: usize) -> (d: (u16, u16))
        requires
            screen < self.roots@.len(),
            display < self.roots@[screen as int].sizes@.len(),
        ensures
            d.0 == self.roots@[screen as int].sizes@[display as int].width,
            d.1 == self.roots@[screen as int].sizes@[display as int].height,
    {
        let dim = &self.roots[screen].sizes[display];
        (dim.width, dim.height)
    }

    /// Maps a monitor-local coordinate to the absolute coordinate on the
    /// screen's root surface: the monitor's placement offset plus the local
    /// coordinate.
    pub fn screen_to_abs(&self, screen: usize, display: usize, x: u16, y: u16) -> (a: (u16, u16))
        requires
            screen < self.roots@.len(),
            display < self.roots@[screen as int].sizes@.len(),
            (self.roots@[screen as int].sizes@[display as int].x as u16) + x <= u16::MAX,
            (self.roots@[screen as int].sizes@[display as int].y as u16) + y <= u16::MAX,
        ensures
            a.0 == (self.roots@[screen as int].sizes@[display as int].x as u16) + x,
            a.1 == (self.roots@[screen as int].sizes@[display as int].y as u16) + y,
    {
        let d = &self.roots[screen].sizes[display];
        ((d.x as u16) + x, (d.y as u16) + y)
    }

    /// Rebuilds the whole set of tracked root surfaces from a fresh
    /// enumeration.  Returns the backing-pixmap identifier of every
    /// previously tracked surface, each exactly once and in tracked order,
    /// for the caller to release; each new surface takes exactly one of the
    /// freshly allocated pixmap identifiers.
    pub fn apply_refresh(&mut self, screens: &Vec<ScreenInfo>, pids: &Vec<u32>) -> (freed: Vec<
        u32,
    >)
        requires
            old(self).wf(),
            pids@.len() == screens@.len(),
        ensures
            final(self).wf(),
            final(self).canvas == old(self).canvas,
            final(self).verbose == old(self).verbose,
            freed@.len() == old(self).roots@.len(),
            forall|k: int| 0 <= k < freed@.len() ==> freed@[k] == old(self).roots@[k].pid,
            final(self).roots@.len() == screens@.len(),
            forall|k: int|
                0 <= k < screens@.len() ==> {
                    &&& (#[trigger] final(self).roots@[k]).index == k
                    &&& final(self).roots@[k].root == screens@[k].root
                    &&& final(self).roots@[k].width == screens@[k].width
                    &&& final(self).roots@[k].height == screens@[k].height
                    &&& final(self).roots@[k].pid == pids@[k]
                    &&& final(self).roots@[k].sizes@ == spec_monitor_rects(screens@[k].outputs@)
                },
    {
        let mut freed: Vec<u32> = Vec::new();
        let mut k: usize = 0;
        while k < self.roots.len()
            invariant
                k <= self.roots@.len(),
                freed@.len() == k,
                forall|j: int| 0 <= j < k ==> freed@[j] == self.roots@[j].pid,
            decreases self.roots@.len() - k,
        {
            freed.push(self.roots[k].pid);
            k = k + 1;
        }
        let mut new_roots: Vec<Root> = Vec::new();
        let mut k: usize = 0;
        while k < screens.len()
            invariant
                k <= screens@.len(),
                pids@.len() == screens@.len(),
                new_roots@.len() == k,
                forall|j: int|
                    0 <= j < k ==> {
                        &&& (#[trigger] new_roots@[j]).index == j
                        &&& new_roots@[j].root == screens@[j].root
                        &&& new_roots@[j].width == screens@[j].width
                        &&& new_roots@[j].height == screens@[j].height
                        &&& new_roots@[j].pid == pids@[j]
                        &&& new_roots@[j].sizes@ == spec_monitor_rects(screens@[j].outputs@)
                    },
            decreases screens@.len() - k,
        {
            let s = &screens[k];
            let sizes = monitor_rects(&s.outputs);
            new_roots.push(
                Root {
                    index: k,
                    root: s.root,
                    width: s.width,
                    height: s.height,
                    pid: pids[k],
                    sizes,
                },
            );
            k = k + 1;
        }
        self.roots = new_roots;
        freed
    }

    /// Decides whether one queued notification reports a resize of a
    /// tracked root surface.  Error and unknown notifications are skipped
    /// (the caller may log them); a resize of an untracked window is not a
    /// match either.
    pub fn handle_event(&self, ev: &XEvent) -> (resized: bool)
        ensures
            resized == spec_resize_match(self.roots@, *ev),
    {
        let e = *ev;
        match e {
            XEvent::Resize { window } => {
                let mut k: usize = 0;
                while k < self.roots.len()
                    invariant
                        k <= self.roots@.len(),
                        forall|j: int| 0 <= j < k ==> self.roots@[j].root != window,
                        e == (XEvent::Resize { window }),
                        e == *ev,
                    decreases self.roots@.len() - k,
                {
                    if self.roots[k].root == window {
                        proof {
                            assert(root_tracked(self.roots@, window));
                        }
                        return true;
                    }
                    k = k + 1;
                }
                false
            },
            _ => false,
        }
    }

    /// Grows the canvas so an image of the given dimensions fits its
    /// logical view, allocating a fresh zeroed canvas when needed; a
    /// dimension beyond the 16-bit coordinate space is rejected.
    pub fn resize_shm(&mut self, img_w: u32, img_h: u32) -> (r: Result<(), BgError>)
        requires
            old(self).wf(),
            canvas_fits(0xFFFF, 0xFFFF),
        ensures
            final(self).wf(),
            final(self).roots == old(self).roots,
            final(self).verbose == old(self).verbose,
            r is Ok <==> img_w <= 0xFFFF && img_h <= 0xFFFF,
            r is Err ==> r == Err::<(), BgError>(BgError::ToLargeRgb) && *final(self) == *old(self),
            r is Ok ==> {
                let c0 = old(self).canvas;
                if img_w <= c0.width && img_h <= c0.height {
                    *final(self) == *old(self)
                } else {
                    let c1 = final(self).canvas;
                    &&& c1.width == spec_max(c0.width as int, img_w as int)
                    &&& c1.height == spec_max(c0.height as int, img_h as int)
                    &&& c1.cap_width == c1.width && c1.cap_height == c1.height
                    &&& c1.depth == c0.depth && c1.scanline_pad == c0.scanline_pad
                    &&& c1.byte_order == c0.byte_order
                    &&& forall|i: int| 0 <= i < c1.data@.len() ==> c1.data@[i] == 0u8
                }
            },
            r is Ok ==> final(self).canvas.width >= img_w && final(self).canvas.height >= img_h,
    {
        if img_w > 0xFFFF || img_h > 0xFFFF {
            return Err(BgError::ToLargeRgb);
        }
        let rgb_w = img_w as u16;
        let rgb_h = img_h as u16;
        let mut smi_width = self.canvas.width;
        let mut smi_height = self.canvas.height;
        if smi_width < rgb_w || smi_height < rgb_h {
            if smi_width < rgb_w {
                smi_width = rgb_w;
            }
            if smi_height < rgb_h {
                smi_height = rgb_h;
            }
            proof {
                lemma_fits_mono(smi_width as int, smi_height as int);
            }
            self.canvas = Canvas::with_dims(
                self.canvas.depth,
                self.canvas.scanline_pad,
                self.canvas.byte_order,
                smi_width,
                smi_height,
            );
        }
        Ok(())
    }

    /// Places an image at an absolute coordinate of a screen: inside the
    /// surface the canvas is grown as needed and the image composed into
    /// it, and the caller gets the transfer to perform; an origin outside
    /// the surface is skipped, leaving every tracked and pixel state
    /// untouched.
    pub fn replace_abs(&mut self, screen: usize, x: u16, y: u16, rgb: &RgbData) -> (r: Result<
        Placement,
        BgError,
    >)
        requires
            old(self).wf(),
            rgb.wf(),
            screen < old(self).roots@.len(),
            canvas_fits(0xFFFF, 0xFFFF),
        ensures
            final(self).wf(),
            final(self).roots == old(self).roots,
            final(self).verbose == old(self).verbose,
            ({
                let root = old(self).roots@[screen as int];
                let in_bounds = x < root.width && y < root.height;
                let fits = rgb.width <= 0xFFFF && rgb.height <= 0xFFFF;
                &&& !in_bounds ==> r == Ok::<Placement, BgError>(Placement::Skipped) && *final(self) == *old(self)
                &&& in_bounds && !fits ==> r == Err::<Placement, BgError>(BgError::ToLargeRgb)
                &&& in_bounds && fits ==> {
                    &&& r == Ok::<Placement, BgError>(
                        Placement::Placed {
                            pid: root.pid,
                            window: root.root,
                            x,
                            y,
                            w: rgb.width as u16,
                            h: rgb.height as u16,
                        },
                    )
                    &&& final(self).canvas.width >= rgb.width
                    &&& final(self).canvas.height >= rgb.height
                    &&& composed_region(final(self).canvas, rgb)
                }
            }),
    {
        let root_width = self.roots[screen].width;
        let root_height = self.roots[screen].height;
        let pid = self.roots[screen].pid;
        let window = self.roots[screen].root;
        if x < root_width && y < root_height {
            match self.resize_shm(rgb.width, rgb.height) {
                Err(e) => Err(e),
                Ok(()) => {
                    let ghost cmid = self.canvas;
                    self.canvas.compose(rgb, None, 0);
                    proof {
                        assert(spec_min(cmid.width as int, rgb.width as int) == rgb.width as int);
                        assert(spec_min(cmid.height as int, rgb.height as int)
                            == rgb.height as int);
                        assert(self.canvas.stride == cmid.stride);
                        assert forall|ix: int, iy: int|
                            0 <= ix < rgb.width && 0 <= iy < rgb.height implies {
                            &&& chan_at(self.canvas.data@, self.canvas.stride as int, ix, iy, 0)
                                == rgb.spec_pix(ix, iy).b
                            &&& chan_at(self.canvas.data@, self.canvas.stride as int, ix, iy, 1)
                                == rgb.spec_pix(ix, iy).g
                            &&& chan_at(self.canvas.data@, self.canvas.stride as int, ix, iy, 2)
                                == rgb.spec_pix(ix, iy).r
                        } by {
                            assert(chan_at(self.canvas.data@, cmid.stride as int, ix, iy, 0)
                                == crate::canvas::out_b(rgb, None, 0, ix, iy));
                            assert(chan_at(self.canvas.data@, cmid.stride as int, ix, iy, 1)
                                == crate::canvas::out_g(rgb, None, 0, ix, iy));
                            assert(chan_at(self.canvas.data@, cmid.stride as int, ix, iy, 2)
                                == crate::canvas::out_r(rgb, None, 0, ix, iy));
                        }
                        assert(composed_region(self.canvas, rgb));
                    }
                    Ok(
                        Placement::Placed {
                            pid,
                            window,
                            x,
                            y,
                            w: rgb.width as u16,
                            h: rgb.height as u16,
                        },
                    )
                },
            }
        } else {
            Ok(Placement::Skipped)
        }
    }

    /// Places an image at a monitor-local coordinate: the coordinate is
    /// mapped through the monitor's placement and then placed absolutely.
    pub fn replace(&mut self, screen: usize, display: usize, x: u16, y: u16, rgb: &RgbData) -> (r:
        Result<Placement, BgError>)
        requires
            old(self).wf(),
            rgb.wf(),
            screen < old(self).roots@.len(),
            display < old(self).roots@[screen as int].sizes@.len(),
            (old(self).roots@[screen as int].sizes@[display as int].x as u16) + x <= u16::MAX,
            (old(self).roots@[screen as int].sizes@[display as int].y as u16) + y <= u16::MAX,
            canvas_fits(0xFFFF, 0xFFFF),
        ensures
            final(self).wf(),
            final(self).roots == old(self).roots,
            final(self).verbose == old(self).verbose,
            ({
                let mon = old(self).roots@[screen as int].sizes@[display as int];
                let ax = (mon.x as u16) + x;
                let ay = (mon.y as u16) + y;
                let root = old(self).roots@[screen as int];
                let in_bounds = ax < root.width && ay < root.height;
                let fits = rgb.width <= 0xFFFF && rgb.height <= 0xFFFF;
                &&& !in_bounds ==> r == Ok::<Placement, BgError>(Placement::Skipped) && *final(self) == *old(self)
                &&& in_bounds && !fits ==> r == Err::<Placement, BgError>(BgError::ToLargeRgb)
                &&& in_bounds && fits ==> {
                    &&& r == Ok::<Placement, BgError>(
                        Placement::Placed {
                            pid: root.pid,
                            window: root.root,
                            x: ax as u16,
                            y: ay as u16,
                            w: rgb.width as u16,
                            h: rgb.height as u16,
                        },
                    )
                    &&& composed_region(final(self).canvas, rgb)
                }
            }),
    {
        let (ax, ay) = self.screen_to_abs(screen, display, x, y);
        self.replace_abs(screen, ax, ay, rgb)
    }

    /// Prepares a fade toward an image at an absolute coordinate: an
    /// oversized image is rejected before any server interaction; an origin
    /// outside the surface makes the whole fade a no-op; otherwise the
    /// canvas view is made to match the fade rectangle — the part of the
    /// image that lies on the surface — allocating a fresh canvas when the
    /// current view differs.
    pub fn fade_prepare(&mut self, screen: usize, x: u16, y: u16, img_w: u32, img_h: u32) -> (r:
        Result<FadePrep, BgError>)
        requires
            old(self).wf(),
            screen < old(self).roots@.len(),
            canvas_fits(0xFFFF, 0xFFFF),
        ensures
            final(self).wf(),
            final(self).roots == old(self).roots,
            final(self).verbose == old(self).verbose,
            ({
                let root = old(self).roots@[screen as int];
                let fits = img_w <= 0xFFFF && img_h <= 0xFFFF;
                let in_bounds = x < root.width && y < root.height;
                let fw = spec_min(root.width - x, img_w as int);
                let fh = spec_min(root.height - y, img_h as int);
                &&& !fits ==> r == Err::<FadePrep, BgError>(BgError::ToLargeRgb) && *final(self)
                    == *old(self)
                &&& fits && !in_bounds ==> r == Ok::<FadePrep, BgError>(FadePrep::Skip) && *final(self) == *old(self)
                &&& fits && in_bounds ==> {
                    let c1 = final(self).canvas;
                    let replaced = !(old(self).canvas.width == fw && old(self).canvas.height
                        == fh);
                    &&& r == Ok::<FadePrep, BgError>(
                        FadePrep::Run {
                            pid: root.pid,
                            window: root.root,
                            width: fw as u16,
                            height: fh as u16,
                            replaced,
                        },
                    )
                    &&& c1.width == fw && c1.height == fh
                    &&& !replaced ==> *final(self) == *old(self)
                    &&& replaced ==> {
                        &&& c1.cap_width == fw && c1.cap_height == fh
                        &&& c1.depth == old(self).canvas.depth
                        &&& c1.scanline_pad == old(self).canvas.scanline_pad
                        &&& c1.byte_order == old(self).canvas.byte_order
                        &&& forall|i: int| 0 <= i < c1.data@.len() ==> c1.data@[i] == 0u8
                    }
                }
            }),
    {
        if img_w > 0xFFFF || img_h > 0xFFFF {
            return Err(BgError::ToLargeRgb);
        }
        let root_width = self.roots[screen].width;
        let root_height = self.roots[screen].height;
        let pid = self.roots[screen].pid;
        let window = self.roots[screen].root;
        if !(x < root_width && y < root_height) {
            return Ok(FadePrep::Skip);
        }
        let mut width: u16 = root_width - x;
        let mut height: u16 = root_height - y;
        if (img_w as u16) < width {
            width = img_w as u16;
        }
        if (img_h as u16) < height {
            height = img_h as u16;
        }
        let replaced = width != self.canvas.width || height != self.canvas.height;
        if replaced {
            proof {
                lemma_fits_mono(width as int, height as int);
            }
            self.canvas = Canvas::with_dims(
                self.canvas.depth,
                self.canvas.scanline_pad,
                self.canvas.byte_order,
                width,
                height,
            );
        }
        Ok(FadePrep::Run { pid, window, width, height, replaced })
    }
}

/// Mapping a monitor's local origin: for every tracked monitor whose
/// placement lies inside its surface (non-negative offsets), the absolute
/// coordinate of local `(0, 0)` is exactly the monitor's own `(x, y)`.
pub proof fn lemma_to_abs_origin(m: Display)
    requires
        0 <= m.x,
        0 <= m.y,
    ensures
        (m.x as u16) + 0u16 == m.x,
        (m.y as u16) + 0u16 == m.y,
{
}

} // verus!
