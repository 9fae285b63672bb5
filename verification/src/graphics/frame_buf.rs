use vstd::prelude::*;
use crate::error::Error;
use crate::graphics::color::PixelFormat;
use crate::graphics::draw::canvas::{canvas_ok, copied_pixels};
use crate::graphics::geometry::{Point, Rect, Size};
use crate::graphics::multi_layer::{Layer, LayerId};

verus! {

/// The screen: its resolution, stride and pixel format once known, the
/// shadow buffer that drawing goes to once enabled, whether the shadow holds
/// changes not yet on the screen, and the area they cover.
#[derive(Debug)]
pub struct FrameBuffer {
    pub resolution: Option<Size>,
    pub stride: Option<usize>,
    pub format: Option<PixelFormat>,
    pub shadow: Option<Layer>,
    pub dirty: bool,
    pub updated_rect: Option<Rect>,
}

/// The size drawing works with: the stride across, the screen height down.
pub open spec fn draw_size(fb: FrameBuffer) -> Option<Size> {
    match (fb.resolution, fb.stride) {
        (Some(r), Some(st)) => Some(Size { width: st, height: r.height }),
        _ => None,
    }
}

/// Resolution, stride and format are known together, and the shadow buffer
/// covers the drawing size in the screen's format.
pub open spec fn fb_wf(fb: FrameBuffer) -> bool {
    &&& fb.resolution is Some == fb.stride is Some
    &&& fb.resolution is Some == fb.format is Some
    &&& fb.shadow matches Some(s) ==> {
        &&& draw_size(fb) == Some(s.size)
        &&& fb.format == Some(s.format)
        &&& canvas_ok(s)
    }
}

/// The smallest rectangle holding both.
pub open spec fn union_rect(a: Rect, b: Rect) -> Rect {
    let min_x = if a.origin.x < b.origin.x { a.origin.x } else { b.origin.x };
    let min_y = if a.origin.y < b.origin.y { a.origin.y } else { b.origin.y };
    let ar = a.origin.x + a.size.width;
    let br = b.origin.x + b.size.width;
    let ab = a.origin.y + a.size.height;
    let bb = b.origin.y + b.size.height;
    let max_x = if ar > br { ar } else { br };
    let max_y = if ab > bb { ab } else { bb };
    Rect { origin: Point { x: min_x, y: min_y }, size: Size { width: (max_x - min_x) as usize, height: (max_y - min_y) as usize } }
}

/// Where a layer meets the area kept and the screen: left, top, right and
/// bottom edges.
pub open spec fn overlap(layer: Layer, keep: Rect, size: Size) -> (int, int, int, int) {
    let (lx, ly) = (layer.pos.x as int, layer.pos.y as int);
    let (lr, lb) = (lx + layer.size.width, ly + layer.size.height);
    let (kr, kb) = (keep.origin.x + keep.size.width, keep.origin.y + keep.size.height);
    let left = if lx > keep.origin.x { lx } else { keep.origin.x as int };
    let top = if ly > keep.origin.y { ly } else { keep.origin.y as int };
    let r1 = if lr < kr { lr } else { kr };
    let right = if r1 < size.width { r1 } else { size.width as int };
    let b1 = if lb < kb { lb } else { kb };
    let bottom = if b1 < size.height { b1 } else { size.height as int };
    (left, top, right, bottom)
}

fn min_usize(a: usize, b: usize) -> (res: usize)
    ensures
        res == if a < b { a } else { b },
{
    if a < b {
        a
    } else {
        b
    }
}

impl FrameBuffer {
    pub fn new() -> (res: Self)
        ensures
            fb_wf(res),
            res.resolution is None,
            res.shadow is None,
            !res.dirty,
            res.updated_rect is None,
    {
        FrameBuffer { resolution: None, stride: None, format: None, shadow: None, dirty: false, updated_rect: None }
    }

    /// Records the screen's resolution, stride and pixel format.
    pub fn init(&mut self, resolution: Size, stride: usize, format: PixelFormat)
        requires
            old(self).shadow is None,
        ensures
            fb_wf(*final(self)),
            final(self).resolution == Some(resolution),
            final(self).stride == Some(stride),
            final(self).format == Some(format),
            final(self).shadow is None,
            final(self).dirty == old(self).dirty,
            final(self).updated_rect == old(self).updated_rect,
    {
        self.resolution = Some(resolution);
        self.stride = Some(stride);
        self.format = Some(format);
    }

    /// The size drawing works with: the stride across, the height down.
    pub fn draw_resolution(&self) -> (res: Result<Size, Error>)
        ensures
            match draw_size(*self) {
                Some(s) => res == Ok::<Size, Error>(s),
                None => res == Err::<Size, Error>(Error::NotInitialized),
            },
    {
        let res = match self.resolution {
            Some(r) => r,
            None => return Err(Error::NotInitialized),
        };
        let stride = match self.stride {
            Some(s) => s,
            None => return Err(Error::NotInitialized),
        };
        Ok(Size::new(stride, res.height))
    }

    pub fn pixel_format(&self) -> (res: Result<PixelFormat, Error>)
        ensures
            match self.format {
                Some(f) => res == Ok::<PixelFormat, Error>(f),
                None => res == Err::<PixelFormat, Error>(Error::NotInitialized),
            },
    {
        match self.format {
            Some(f) => Ok(f),
            None => Err(Error::NotInitialized),
        }
    }

    /// Starts drawing into a shadow buffer that holds what the screen
    /// shows now (`screen`, read from the screen's memory).
    pub fn enable_shadow_buf(&mut self, screen: &[u32]) -> (res: Result<(), Error>)
        requires
            fb_wf(*old(self)),
            draw_size(*old(self)) matches Some(s) ==> s.width * s.height <= screen@.len(),
        ensures
            fb_wf(*final(self)),
            final(self).resolution == old(self).resolution,
            final(self).stride == old(self).stride,
            final(self).format == old(self).format,
            final(self).dirty == old(self).dirty,
            final(self).updated_rect == old(self).updated_rect,
            match draw_size(*old(self)) {
                None => res == Err::<(), Error>(Error::NotInitialized) && final(self).shadow == old(self).shadow,
                Some(s) => res is Ok && (final(self).shadow matches Some(l) && {
                    &&& l.size == s
                    &&& l.pos == (Point { x: 0, y: 0 })
                    &&& l.buf@ == screen@.take(s.width * s.height)
                }),
            },
    {
        let res = match self.draw_resolution() {
            Ok(r) => r,
            Err(e) => return Err(e),
        };
        let format = match self.format {
            Some(f) => f,
            None => return Err(Error::NotInitialized),
        };
        let slen = screen.len();
        assert(res.width * res.height <= slen);
        let n = res.width * res.height;
        let mut layer = Layer::new(LayerId::new_val(0), Point::new(0, 0), res, format);
        let mut i: usize = 0;
        while i < n
            invariant
                i <= n,
                n == res.width * res.height,
                n <= screen@.len(),
                layer.buf@.len() == n,
                layer.size == res,
                layer.pos == (Point { x: 0, y: 0 }),
                layer.format == format,
                forall|k: int| 0 <= k < i ==> #[trigger] layer.buf@[k] == screen@[k],
            decreases n - i,
        {
            layer.buf.set(i, screen[i]);
            i = i + 1;
        }
        assert(layer.buf@ =~= screen@.take(n as int));
        self.shadow = Some(layer);
        Ok(())
    }

    /// Ends a redraw: the rows of the area changed, clipped to the screen,
    /// are to be copied from the shadow buffer to the screen, each as an
    /// offset and a number of pixels. With no shadow buffer, or nothing
    /// changed, there is nothing to copy.
    pub fn apply_shadow_buf(&mut self) -> (res: Result<Vec<(usize, usize)>, Error>)
        requires
            fb_wf(*old(self)),
        ensures
            fb_wf(*final(self)),
            final(self).resolution == old(self).resolution,
            final(self).stride == old(self).stride,
            final(self).format == old(self).format,
            final(self).shadow == old(self).shadow,
            if old(self).shadow is None || !old(self).dirty || old(self).updated_rect is None {
                res matches Ok(v) && v@.len() == 0 && *final(self) == *old(self)
            } else if draw_size(*old(self)) is None {
                res == Err::<Vec<(usize, usize)>, Error>(Error::NotInitialized) && *final(self) == *old(self)
            } else {
                let s = draw_size(*old(self)).unwrap();
                let r = old(self).updated_rect.unwrap();
                let x = if r.origin.x < s.width { r.origin.x } else { s.width };
                let y = if r.origin.y < s.height { r.origin.y } else { s.height };
                let w = if r.size.width < s.width - x { r.size.width as int } else { s.width - x };
                let h = if r.size.height < s.height - y { r.size.height as int } else { s.height - y };
                &&& final(self).updated_rect is None
                &&& !final(self).dirty
                &&& res matches Ok(v) && if w == 0 || h == 0 {
                    v@.len() == 0
                } else {
                    v@ == Seq::new(h as nat, |i: int| (((y + i) * s.width + x) as usize, w as usize))
                }
            },
    {
        if self.shadow.is_none() || !self.dirty || self.updated_rect.is_none() {
            return Ok(Vec::new());
        }
        let res = match self.draw_resolution() {
            Ok(r) => r,
            Err(e) => return Err(e),
        };
        let rect = match self.updated_rect {
            Some(r) => r,
            None => return Ok(Vec::new()),
        };
        self.updated_rect = None;
        let x = min_usize(rect.origin.x, res.width);
        let y = min_usize(rect.origin.y, res.height);
        let w = min_usize(rect.size.width, res.width - x);
        let h = min_usize(rect.size.height, res.height - y);
        let mut spans: Vec<(usize, usize)> = Vec::new();
        if w == 0 || h == 0 {
            self.dirty = false;
            return Ok(spans);
        }
        proof {
            let sh = self.shadow.unwrap();
            assert(sh.buf@.len() == res.width * res.height);
        }
        let len = match &self.shadow {
            Some(sh) => sh.buf.len(),
            None => 0,
        };
        let mut i: usize = 0;
        while i < h
            invariant
                i <= h,
                y + h <= res.height,
                x + w <= res.width,
                len == res.width * res.height,
                spans@ == Seq::new(i as nat, |k: int| (((y + k) * res.width + x) as usize, w as usize)),
            decreases h - i,
        {
            proof {
                vstd::arithmetic::mul::lemma_mul_inequality((y + i + 1) as int, res.height as int, res.width as int);
                vstd::arithmetic::mul::lemma_mul_is_distributive_add_other_way(res.width as int, (y + i) as int, 1);
                vstd::arithmetic::mul::lemma_mul_is_commutative(res.width as int, res.height as int);
                vstd::arithmetic::mul::lemma_mul_nonnegative((y + i) as int, res.width as int);
            }
            let offset = (y + i) * res.width + x;
            spans.push((offset, w));
            assert(spans@ =~= Seq::new((i + 1) as nat, |k: int| (((y + k) * res.width + x) as usize, w as usize)));
            i = i + 1;
        }
        self.dirty = false;
        Ok(spans)
    }

    /// Draws a layer into the shadow buffer where it meets `keep_rect` (the
    /// whole screen when none) and the screen, and adds that area to the
    /// area changed. The kernel draws layers only once the shadow buffer is
    /// enabled; without it the drawing would go to the screen's memory.
    pub fn apply_layer_buf(&mut self, layer: &Layer, keep_rect: Option<Rect>) -> (res: Result<(), Error>)
        requires
            fb_wf(*old(self)),
            old(self).shadow is Some,
            canvas_ok(*layer),
            layer.pos.x + layer.size.width <= usize::MAX,
            layer.pos.y + layer.size.height <= usize::MAX,
            keep_rect matches Some(k) ==> k.origin.x + k.size.width <= usize::MAX && k.origin.y + k.size.height
                <= usize::MAX,
            old(self).updated_rect matches Some(u) ==> u.origin.x + u.size.width <= usize::MAX && u.origin.y
                + u.size.height <= usize::MAX,
        ensures
            fb_wf(*final(self)),
            final(self).resolution == old(self).resolution,
            final(self).stride == old(self).stride,
            final(self).format == old(self).format,
            final(self).shadow is Some,
            ({
                let s = draw_size(*old(self)).unwrap();
                let keep = match keep_rect {
                    Some(k) => k,
                    None => Rect { origin: Point { x: 0, y: 0 }, size: s },
                };
                let (left, top, right, bottom) = overlap(*layer, keep, s);
                let sh = old(self).shadow.unwrap();
                let src_rect = Rect {
                    origin: Point { x: (left - layer.pos.x) as usize, y: (top - layer.pos.y) as usize },
                    size: Size { width: (right - left) as usize, height: (bottom - top) as usize },
                };
                let dst = Point { x: left as usize, y: top as usize };
                let new_rect = Rect { origin: dst, size: src_rect.size };
                if left >= right || top >= bottom {
                    res is Ok && *final(self) == *old(self)
                } else if layer.format != sh.format {
                    res == Err::<(), Error>(Error::Draw(
                        crate::graphics::draw::canvas::DrawError::InvalidPixelFormat { src: layer.format, dst: sh.format },
                    )) && *final(self) == *old(self)
                } else {
                    &&& res is Ok
                    &&& final(self).dirty
                    &&& final(self).shadow.unwrap().buf@ == copied_pixels(sh, *layer, src_rect, dst)
                    &&& final(self).updated_rect == Some(
                        match old(self).updated_rect {
                            Some(u) => union_rect(u, new_rect),
                            None => new_rect,
                        },
                    )
                }
            }),
    {
        let res = match self.draw_resolution() {
            Ok(r) => r,
            Err(e) => return Err(e),
        };
        let (lx, ly) = (layer.pos.x, layer.pos.y);
        let (lw, lh) = (layer.size.width, layer.size.height);
        let (rx, ry, rw, rh) = match keep_rect {
            Some(r) => (r.origin.x, r.origin.y, r.size.width, r.size.height),
            None => (0, 0, res.width, res.height),
        };
        let left = if lx > rx { lx } else { rx };
        let top = if ly > ry { ly } else { ry };
        let right = min_usize(min_usize(lx + lw, rx + rw), res.width);
        let bottom = min_usize(min_usize(ly + lh, ry + rh), res.height);
        if left >= right || top >= bottom {
            return Ok(());
        }
        let draw_w = right - left;
        let draw_h = bottom - top;
        let src_rect = Rect::new(left - lx, top - ly, draw_w, draw_h);
        let dst = Point::new(left, top);
        let mut shadow = match self.shadow.take() {
            Some(s) => s,
            None => return Err(Error::NotInitialized),
        };
        let r = shadow.copy_rect_from(layer, src_rect, dst);
        self.shadow = Some(shadow);
        match r {
            Ok(()) => {},
            Err(e) => return Err(e),
        }
        let new_rect = Rect::new(left, top, draw_w, draw_h);
        self.updated_rect = match self.updated_rect {
            Some(curr) => {
                let min_x = if curr.origin.x < left { curr.origin.x } else { left };
                let min_y = if curr.origin.y < top { curr.origin.y } else { top };
                let cr = curr.origin.x + curr.size.width;
                let cb = curr.origin.y + curr.size.height;
                let max_x = if cr > right { cr } else { right };
                let max_y = if cb > bottom { cb } else { bottom };
                Some(Rect::new(min_x, min_y, max_x - min_x, max_y - min_y))
            },
            None => Some(new_rect),
        };
        self.dirty = true;
        Ok(())
    }
}

} // verus!
