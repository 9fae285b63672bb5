use vstd::prelude::*;
use crate::error::Error;
use crate::graphics::color::PixelFormat;
use crate::graphics::geometry::{Point, Rect, Size};
use crate::graphics::draw::canvas::{canvas_ok, pixel_value};
use crate::fs::file::bitmap::{pixel_offset, BitmapImage};
use crate::codec::le32;

verus! {

/// Identifies a layer.
#[derive(Debug, Clone, Copy, PartialEq, Eq, Structural)]
pub struct LayerId(pub usize);

impl LayerId {
    /// The next fresh id from a counter.
    pub fn new(next: &mut usize) -> (res: Self)
        requires
            *old(next) < usize::MAX,
        ensures
            res.0 == *old(next),
            *final(next) == *old(next) + 1,
    {
        let id = LayerId(*next);
        *next = *next + 1;
        id
    }

    pub fn new_val(value: usize) -> (res: Self)
        ensures
            res.0 == value,
    {
        LayerId(value)
    }

    pub fn get(&self) -> (res: usize)
        ensures
            res == self.0,
    {
        self.0
    }
}

/// Errors of the layer manager.
#[derive(Debug, Clone, Copy, PartialEq, Eq, Structural)]
pub enum LayerError {
    OutsideBufferAreaError { layer_id: usize, point: Point },
    InvalidLayerIdError(usize),
}

/// Where a layer is, its size and pixel format.
#[derive(Debug, Clone, Copy, PartialEq, Eq, Structural)]
pub struct LayerInfo {
    pub pos: Point,
    pub size: Size,
    pub format: PixelFormat,
}

/// A drawing surface composed onto the frame buffer.
#[derive(Debug)]
pub struct Layer {
    pub id: LayerId,
    pub pos: Point,
    pub size: Size,
    pub buf: Vec<u32>,
    pub disabled: bool,
    pub format: PixelFormat,
    pub always_on_top: bool,
    pub dirty: bool,
    pub pos_moved: bool,
    pub old_pos: Option<Point>,
}

/// The rectangle a layer covers at `pos`.
pub open spec fn area(pos: Point, size: Size) -> Rect {
    Rect { origin: pos, size }
}

/// A rectangle whose right and bottom edges are representable.
pub open spec fn rect_fits(r: Rect) -> bool {
    r.origin.x + r.size.width <= usize::MAX && r.origin.y + r.size.height <= usize::MAX
}

/// The layer's areas, old and new, fit.
pub open spec fn layer_fits(l: Layer) -> bool {
    &&& rect_fits(area(l.pos, l.size))
    &&& (l.old_pos matches Some(o) ==> rect_fits(area(o, l.size)))
}

impl Layer {
    /// A cleared layer.
    pub fn new(id: LayerId, pos: Point, size: Size, format: PixelFormat) -> (res: Self)
        requires
            size.width * size.height <= usize::MAX,
        ensures
            res.id == id,
            res.pos == pos,
            res.size == size,
            res.buf@ == Seq::new((size.width * size.height) as nat, |i: int| 0u32),
            !res.disabled,
            res.format == format,
            !res.always_on_top,
            !res.dirty,
            !res.pos_moved,
            res.old_pos is None,
    {
        let n = size.width * size.height;
        let mut buf: Vec<u32> = Vec::new();
        let mut i: usize = 0;
        while i < n
            invariant
                i <= n,
                buf@ == Seq::new(i as nat, |j: int| 0u32),
            decreases n - i,
        {
            buf.push(0);
            i = i + 1;
            assert(buf@ =~= Seq::new(i as nat, |j: int| 0u32));
        }
        Layer {
            id,
            pos,
            size,
            buf,
            disabled: false,
            format,
            always_on_top: false,
            dirty: false,
            pos_moved: false,
            old_pos: None,
        }
    }

    /// Moves the layer, remembering where it was before its first move
    /// since it was last drawn.
    pub fn move_to(&mut self, point: Point)
        ensures
            final(self).id == old(self).id,
            final(self).size == old(self).size,
            final(self).buf == old(self).buf,
            final(self).disabled == old(self).disabled,
            final(self).format == old(self).format,
            final(self).always_on_top == old(self).always_on_top,
            final(self).dirty == old(self).dirty,
            if old(self).pos == point {
                final(self).pos == old(self).pos && final(self).pos_moved == old(self).pos_moved
                    && final(self).old_pos == old(self).old_pos
            } else {
                &&& final(self).pos == point
                &&& final(self).pos_moved
                &&& final(self).old_pos == if old(self).pos_moved {
                    old(self).old_pos
                } else {
                    Some(old(self).pos)
                }
            },
    {
        if self.pos == point {
            return;
        }
        if !self.pos_moved {
            self.old_pos = Some(self.pos);
        }
        self.pos = point;
        self.pos_moved = true;
    }

    pub fn layer_info(&self) -> (res: LayerInfo)
        ensures
            res == (LayerInfo { pos: self.pos, size: self.size, format: self.format }),
    {
        LayerInfo { pos: self.pos, size: self.size, format: self.format }
    }
}

/// The smallest rectangle covering `r1` (if any) and `r2`.
pub open spec fn merge(r1: Option<Rect>, r2: Rect) -> Option<Rect> {
    match r1 {
        Some(a) => {
            let min_x = if a.origin.x < r2.origin.x { a.origin.x } else { r2.origin.x };
            let min_y = if a.origin.y < r2.origin.y { a.origin.y } else { r2.origin.y };
            let a_right = a.origin.x + a.size.width;
            let b_right = r2.origin.x + r2.size.width;
            let a_bottom = a.origin.y + a.size.height;
            let b_bottom = r2.origin.y + r2.size.height;
            let max_x = if a_right > b_right { a_right } else { b_right };
            let max_y = if a_bottom > b_bottom { a_bottom } else { b_bottom };
            Some(
                Rect {
                    origin: Point { x: min_x, y: min_y },
                    size: Size { width: (max_x - min_x) as usize, height: (max_y - min_y) as usize },
                },
            )
        },
        None => Some(r2),
    }
}

fn merge_rect(r1: Option<Rect>, r2: Rect) -> (res: Option<Rect>)
    requires
        r1 matches Some(a) ==> rect_fits(a),
        rect_fits(r2),
    ensures
        res == merge(r1, r2),
        res matches Some(r) && rect_fits(r),
{
    match r1 {
        Some(a) => {
            let min_x = if a.origin.x < r2.origin.x { a.origin.x } else { r2.origin.x };
            let min_y = if a.origin.y < r2.origin.y { a.origin.y } else { r2.origin.y };
            let a_right = a.origin.x + a.size.width;
            let b_right = r2.origin.x + r2.size.width;
            let a_bottom = a.origin.y + a.size.height;
            let b_bottom = r2.origin.y + r2.size.height;
            let max_x = if a_right > b_right { a_right } else { b_right };
            let max_y = if a_bottom > b_bottom { a_bottom } else { b_bottom };
            Some(Rect::new(min_x, min_y, max_x - min_x, max_y - min_y))
        },
        None => Some(r2),
    }
}

/// The area to redraw for the layers in order: every enabled layer that is
/// dirty or moved, and where a moved layer was.
pub open spec fn invalid_rect(s: Seq<Layer>) -> Option<Rect>
    decreases s.len(),
{
    if s.len() == 0 {
        None
    } else {
        let r = invalid_rect(s.drop_last());
        let l = s.last();
        if l.disabled {
            r
        } else {
            let r1 = if l.dirty {
                merge(r, area(l.pos, l.size))
            } else {
                r
            };
            if l.pos_moved {
                let r2 = merge(r1, area(l.pos, l.size));
                match l.old_pos {
                    Some(o) => merge(r2, area(o, l.size)),
                    None => r2,
                }
            } else {
                r1
            }
        }
    }
}

/// The layers not always on top, in order.
pub open spec fn below(s: Seq<Layer>) -> Seq<Layer>
    decreases s.len(),
{
    if s.len() == 0 {
        s
    } else if s.last().always_on_top {
        below(s.drop_last())
    } else {
        below(s.drop_last()).push(s.last())
    }
}

/// The layers always on top, in order.
pub open spec fn on_top(s: Seq<Layer>) -> Seq<Layer>
    decreases s.len(),
{
    if s.len() == 0 {
        s
    } else if s.last().always_on_top {
        on_top(s.drop_last()).push(s.last())
    } else {
        on_top(s.drop_last())
    }
}

/// The layers without those with id `id`, in order.
pub open spec fn without_id(s: Seq<Layer>, id: LayerId) -> Seq<Layer>
    decreases s.len(),
{
    if s.len() == 0 {
        s
    } else if s.last().id == id {
        without_id(s.drop_last(), id)
    } else {
        without_id(s.drop_last(), id).push(s.last())
    }
}

/// The position of the first layer with id `id`, from `i`.
pub open spec fn layer_index_from(s: Seq<Layer>, id: LayerId, i: int) -> Option<int>
    decreases s.len() - i,
{
    if i < 0 || i >= s.len() {
        None
    } else if s[i].id == id {
        Some(i)
    } else {
        layer_index_from(s, id, i + 1)
    }
}

/// The position of the first layer always on top, from `i`.
pub open spec fn first_on_top_from(s: Seq<Layer>, i: int) -> Option<int>
    decreases s.len() - i,
{
    if i < 0 || i >= s.len() {
        None
    } else if s[i].always_on_top {
        Some(i)
    } else {
        first_on_top_from(s, i + 1)
    }
}

/// The layer marked as needing a redraw.
pub open spec fn marked_dirty(l: Layer) -> Layer {
    Layer {
        id: l.id,
        pos: l.pos,
        size: l.size,
        buf: l.buf,
        disabled: l.disabled,
        format: l.format,
        always_on_top: l.always_on_top,
        dirty: true,
        pos_moved: l.pos_moved,
        old_pos: l.old_pos,
    }
}

/// The layer once drawn: clean and unmoved, when it is enabled.
pub open spec fn drawn(l: Layer) -> Layer {
    if l.disabled {
        l
    } else {
        Layer {
            id: l.id,
            pos: l.pos,
            size: l.size,
            buf: l.buf,
            disabled: l.disabled,
            format: l.format,
            always_on_top: l.always_on_top,
            dirty: false,
            pos_moved: false,
            old_pos: None,
        }
    }
}

/// The ids of the enabled layers, in order.
pub open spec fn enabled_ids(s: Seq<Layer>) -> Seq<LayerId>
    decreases s.len(),
{
    if s.len() == 0 {
        Seq::empty()
    } else if s.last().disabled {
        enabled_ids(s.drop_last())
    } else {
        enabled_ids(s.drop_last()).push(s.last().id)
    }
}

/// What to copy onto the frame buffer: the area to redraw, and the layers to
/// draw into it from the bottom up.
#[derive(Debug)]
pub struct Redraw {
    pub rect: Rect,
    pub layer_ids: Vec<LayerId>,
}

/// The layers, drawn from the first to the last.
pub struct LayerManager {
    pub layers: Vec<Layer>,
}

proof fn lemma_invalid_rect_fits(s: Seq<Layer>)
    requires
        forall|i: int| 0 <= i < s.len() ==> #[trigger] layer_fits(s[i]),
    ensures
        invalid_rect(s) matches Some(r) ==> rect_fits(r),
    decreases s.len(),
{
    if s.len() > 0 {
        assert forall|i: int| 0 <= i < s.drop_last().len() implies #[trigger] layer_fits(
            s.drop_last()[i],
        ) by {
            assert(s.drop_last()[i] == s[i]);
        }
        lemma_invalid_rect_fits(s.drop_last());
        assert(layer_fits(s[s.len() - 1]));
    }
}

impl LayerManager {
    pub fn new() -> (res: Self)
        ensures
            res.layers@.len() == 0,
    {
        LayerManager { layers: Vec::new() }
    }

    pub fn push_layer(&mut self, layer: Layer)
        ensures
            final(self).layers@ == old(self).layers@.push(layer),
    {
        self.layers.push(layer);
    }

    fn find(&self, id: LayerId) -> (res: Option<usize>)
        ensures
            match res {
                Some(i) => layer_index_from(self.layers@, id, 0) == Some(i as int) && i < self.layers@.len(),
                None => layer_index_from(self.layers@, id, 0) is None,
            },
    {
        let mut i: usize = 0;
        while i < self.layers.len()
            invariant
                i <= self.layers@.len(),
                layer_index_from(self.layers@, id, 0) == layer_index_from(self.layers@, id, i as int),
            decreases self.layers.len() - i,
        {
            if self.layers[i].id == id {
                return Some(i);
            }
            i = i + 1;
        }
        None
    }

    /// Removes every layer with the id; an unknown id is refused.
    pub fn remove_layer(&mut self, layer_id: LayerId) -> (res: Result<(), Error>)
        ensures
            layer_index_from(old(self).layers@, layer_id, 0) is None ==> res == Err::<(), Error>(
                Error::Layer(LayerError::InvalidLayerIdError(layer_id.0)),
            ) && final(self).layers@ == old(self).layers@,
            layer_index_from(old(self).layers@, layer_id, 0) is Some ==> res is Ok && final(self).layers@
                == without_id(old(self).layers@, layer_id),
    {
        if self.find(layer_id).is_none() {
            return Err(Error::Layer(LayerError::InvalidLayerIdError(layer_id.0)));
        }
        let ghost orig = self.layers@;
        let mut i: usize = 0;
        let ghost mut k: int = 0;
        while i < self.layers.len()
            invariant
                0 <= i <= k <= orig.len(),
                self.layers@.len() == i + (orig.len() - k),
                self.layers@.take(i as int) == without_id(orig.take(k), layer_id),
                self.layers@.skip(i as int) == orig.skip(k),
            decreases self.layers.len() - i,
        {
            assert(orig.take(k + 1).drop_last() =~= orig.take(k));
            assert(self.layers@.skip(i as int)[0] == self.layers@[i as int]);
            assert(orig.skip(k)[0] == orig[k]);
            assert(self.layers@[i as int] == orig[k]);
            if self.layers[i].id == layer_id {
                let ghost before = self.layers@;
                self.layers.remove(i);
                assert(self.layers@.take(i as int) =~= before.take(i as int));
                assert(self.layers@.skip(i as int) =~= before.skip(i + 1));
            } else {
                let ghost before = self.layers@;
                i = i + 1;
                assert(self.layers@.take(i as int) =~= before.take(i - 1).push(before[i - 1]));
                assert(self.layers@.skip(i as int) =~= before.skip(i - 1).skip(1));
            }
            proof {
                k = k + 1;
            }
            assert(orig.skip(k) =~= orig.skip(k - 1).skip(1));
        }
        assert(orig.take(orig.len() as int) =~= orig);
        assert(self.layers@.take(i as int) =~= self.layers@);
        Ok(())
    }

    /// Brings a layer to the front of the layers that are not always on top
    /// (or to the very front, if it is always on top), and marks every layer
    /// for redrawing.
    pub fn bring_layer_to_front(&mut self, layer_id: LayerId) -> (res: Result<(), Error>)
        ensures
            match layer_index_from(old(self).layers@, layer_id, 0) {
                None => res == Err::<(), Error>(Error::Layer(LayerError::InvalidLayerIdError(layer_id.0)))
                    && final(self).layers@ == old(self).layers@,
                Some(i) => {
                    let l = old(self).layers@[i];
                    let rest = old(self).layers@.remove(i);
                    let order = if l.always_on_top {
                        rest.push(l)
                    } else {
                        match first_on_top_from(rest, 0) {
                            Some(j) => rest.insert(j, l),
                            None => rest.push(l),
                        }
                    };
                    res is Ok && final(self).layers@ == order.map_values(|x: Layer| marked_dirty(x))
                },
            },
    {
        let index = match self.find(layer_id) {
            Some(i) => i,
            None => return Err(Error::Layer(LayerError::InvalidLayerIdError(layer_id.0))),
        };
        let layer = self.layers.remove(index);
        if layer.always_on_top {
            self.layers.push(layer);
        } else {
            let mut j: usize = 0;
            while j < self.layers.len() && !self.layers[j].always_on_top
                invariant
                    j <= self.layers@.len(),
                    first_on_top_from(self.layers@, 0) == first_on_top_from(self.layers@, j as int),
                decreases self.layers.len() - j,
            {
                j = j + 1;
            }
            self.layers.insert(j, layer);
        }
        let ghost order = self.layers@;
        let mut t: usize = 0;
        while t < self.layers.len()
            invariant
                t <= self.layers@.len(),
                self.layers@.len() == order.len(),
                forall|q: int| 0 <= q < t ==> #[trigger] self.layers@[q] == marked_dirty(order[q]),
                forall|q: int| t <= q < order.len() ==> #[trigger] self.layers@[q] == order[q],
            decreases self.layers.len() - t,
        {
            let ghost cur = self.layers@;
            let mut l = self.layers.remove(t);
            l.dirty = true;
            self.layers.insert(t, l);
            proof {
                crate::fs::vfs::descriptors::lemma_remove_insert(cur, t as int, marked_dirty(order[t as int]));
            }
            t = t + 1;
        }
        assert(self.layers@ =~= order.map_values(|x: Layer| marked_dirty(x)));
        Ok(())
    }

    /// Puts the layers always on top after the others (keeping the order
    /// within each group), then works out the area to redraw. When there is
    /// one, every enabled layer is to be drawn into it from the bottom up and
    /// is marked clean and unmoved.
    pub fn draw_to_frame_buf(&mut self) -> (res: Option<Redraw>)
        requires
            forall|i: int| 0 <= i < old(self).layers@.len() ==> #[trigger] layer_fits(old(self).layers@[i]),
        ensures
            ({
                let sorted = below(old(self).layers@) + on_top(old(self).layers@);
                match invalid_rect(sorted) {
                    None => res is None && final(self).layers@ == sorted,
                    Some(r) => res matches Some(d) && d.rect == r && d.layer_ids@ == enabled_ids(sorted)
                        && final(self).layers@ == sorted.map_values(|l: Layer| drawn(l)),
                }
            }),
    {
        let ghost orig = self.layers@;
        let mut rest: Vec<Layer> = Vec::new();
        let mut tops: Vec<Layer> = Vec::new();
        let ghost mut k: int = 0;
        while self.layers.len() > 0
            invariant
                0 <= k <= orig.len(),
                self.layers@ == orig.skip(k),
                rest@ == below(orig.take(k)),
                tops@ == on_top(orig.take(k)),
            decreases self.layers.len(),
        {
            assert(orig.take(k + 1).drop_last() =~= orig.take(k));
            let l = self.layers.remove(0);
            assert(l == orig[k]);
            if l.always_on_top {
                tops.push(l);
            } else {
                rest.push(l);
            }
            proof {
                k = k + 1;
            }
            assert(self.layers@ =~= orig.skip(k));
        }
        assert(orig.take(orig.len() as int) =~= orig);
        rest.append(&mut tops);
        self.layers = rest;
        let ghost sorted = self.layers@;
        assert(sorted == below(orig) + on_top(orig));
        proof {
            lemma_sorted_fits(orig);
        }
        let mut invalid: Option<Rect> = None;
        let mut i: usize = 0;
        while i < self.layers.len()
            invariant
                i <= self.layers@.len(),
                self.layers@ == sorted,
                forall|q: int| 0 <= q < sorted.len() ==> #[trigger] layer_fits(sorted[q]),
                invalid == invalid_rect(sorted.take(i as int)),
                invalid matches Some(r) ==> rect_fits(r),
            decreases self.layers.len() - i,
        {
            assert(sorted.take(i + 1).drop_last() =~= sorted.take(i as int));
            let l = &self.layers[i];
            assert(layer_fits(sorted[i as int]));
            if !l.disabled {
                if l.dirty {
                    invalid = merge_rect(invalid, Rect::from_point_and_size(l.pos, l.size));
                }
                if l.pos_moved {
                    invalid = merge_rect(invalid, Rect::from_point_and_size(l.pos, l.size));
                    match l.old_pos {
                        Some(o) => {
                            invalid = merge_rect(invalid, Rect::from_point_and_size(o, l.size));
                        },
                        None => {},
                    }
                }
            }
            i = i + 1;
        }
        assert(sorted.take(sorted.len() as int) =~= sorted);
        let rect = match invalid {
            Some(r) => r,
            None => return None,
        };
        let mut ids: Vec<LayerId> = Vec::new();
        let mut t: usize = 0;
        while t < self.layers.len()
            invariant
                t <= self.layers@.len(),
                self.layers@.len() == sorted.len(),
                ids@ == enabled_ids(sorted.take(t as int)),
                forall|q: int| 0 <= q < t ==> #[trigger] self.layers@[q] == drawn(sorted[q]),
                forall|q: int| t <= q < sorted.len() ==> #[trigger] self.layers@[q] == sorted[q],
            decreases self.layers.len() - t,
        {
            assert(sorted.take(t + 1).drop_last() =~= sorted.take(t as int));
            if !self.layers[t].disabled {
                ids.push(self.layers[t].id);
                let ghost cur = self.layers@;
                let mut l = self.layers.remove(t);
                l.dirty = false;
                l.pos_moved = false;
                l.old_pos = None;
                self.layers.insert(t, l);
                proof {
                    crate::fs::vfs::descriptors::lemma_remove_insert(cur, t as int, drawn(sorted[t as int]));
                }
            }
            t = t + 1;
        }
        assert(sorted.take(sorted.len() as int) =~= sorted);
        assert(self.layers@ =~= sorted.map_values(|l: Layer| drawn(l)));
        Some(Redraw { rect, layer_ids: ids })
    }
}

proof fn lemma_below_on_top_members(s: Seq<Layer>)
    ensures
        forall|i: int| 0 <= i < below(s).len() ==> exists|j: int| 0 <= j < s.len() && #[trigger] below(s)[i] == s[j],
        forall|i: int| 0 <= i < on_top(s).len() ==> exists|j: int| 0 <= j < s.len() && #[trigger] on_top(s)[i] == s[j],
    decreases s.len(),
{
    if s.len() > 0 {
        let p = s.drop_last();
        lemma_below_on_top_members(p);
        assert forall|i: int| 0 <= i < below(s).len() implies exists|j: int| 0 <= j < s.len() && #[trigger] below(s)[i] == s[j] by {
            if i < below(p).len() {
                let j = choose|j: int| 0 <= j < p.len() && below(p)[i] == p[j];
                assert(s[j] == p[j]);
            } else {
                assert(below(s)[i] == s[s.len() - 1]);
            }
        }
        assert forall|i: int| 0 <= i < on_top(s).len() implies exists|j: int| 0 <= j < s.len() && #[trigger] on_top(s)[i] == s[j] by {
            if i < on_top(p).len() {
                let j = choose|j: int| 0 <= j < p.len() && on_top(p)[i] == p[j];
                assert(s[j] == p[j]);
            } else {
                assert(on_top(s)[i] == s[s.len() - 1]);
            }
        }
    }
}

proof fn lemma_sorted_fits(s: Seq<Layer>)
    requires
        forall|i: int| 0 <= i < s.len() ==> #[trigger] layer_fits(s[i]),
    ensures
        forall|i: int| 0 <= i < (below(s) + on_top(s)).len() ==> #[trigger] layer_fits((below(s) + on_top(s))[i]),
{
    lemma_below_on_top_members(s);
    let t = below(s) + on_top(s);
    assert forall|i: int| 0 <= i < t.len() implies #[trigger] layer_fits(t[i]) by {
        if i < below(s).len() {
            let j = choose|j: int| 0 <= j < s.len() && below(s)[i] == s[j];
            assert(t[i] == below(s)[i]);
        } else {
            let j = choose|j: int| 0 <= j < s.len() && on_top(s)[i - below(s).len()] == s[j];
            assert(t[i] == on_top(s)[i - below(s).len()]);
        }
    }
}

/// A layer at `pos` showing a BMP image, in the blue-green-red format: each
/// pixel of the image drawn in its place, top row first.
pub fn create_layer_from_bitmap_image(id: LayerId, pos: Point, image: &BitmapImage) -> (res: Result<Layer, Error>)
    requires
        image.data@.len() >= 54,
        le32(image.data@[10], image.data@[11], image.data@[12], image.data@[13]) <= image.data@.len(),
        0 <= image.info_header_width(),
        0 <= image.info_header_height(),
        image.info_header_width() * (image.bpp_bytes() as nat) + 3 <= usize::MAX,
        image.info_header_width() * image.info_header_height() <= usize::MAX,
        forall|x: nat, y: nat|
            x < image.info_header_width() && y < image.info_header_height() ==> #[trigger] pixel_offset(
                image.info_header_width() as nat,
                image.info_header_height() as nat,
                image.bpp_bytes() as nat,
                x,
                y,
            ) + 2 < image.pixels().len(),
    ensures
        ({
            let w = image.info_header_width() as int;
            let h = image.info_header_height() as int;
            res matches Ok(l) && {
                &&& l.id == id
                &&& l.pos == pos
                &&& l.size == Size { width: w as usize, height: h as usize }
                &&& l.format == PixelFormat::Bgr
                &&& !l.disabled && !l.always_on_top && !l.pos_moved && l.old_pos is None
                &&& l.dirty == (w * h > 0)
                &&& canvas_ok(l)
                &&& forall|y: nat, x: nat|
                    y < h && x < w ==> #[trigger] l.buf@[y * w + x] == pixel_value(
                        image.pixel_color(x, y),
                        PixelFormat::Bgr,
                    )
            }
        }),
{
    let info = image.info_header();
    let colors = image.bitmap_to_rgb_color_code();
    let b_w = info.width as usize;
    let b_h = info.height as usize;
    let mut layer = Layer::new(id, pos, Size::new(b_w, b_h), PixelFormat::Bgr);
    let ghost len = (b_w * b_h) as int;
    proof {
        let aw = crate::fs::file::bitmap::abs32(image.info_header_width());
        let ah = crate::fs::file::bitmap::abs32(image.info_header_height());
        assert(aw == b_w && ah == b_h);
        assert forall|y2: nat, x2: nat| y2 < b_h && x2 < b_w implies #[trigger] colors@[(y2 * b_w + x2) as int]
            == image.pixel_color(x2, y2) by {
            assert(colors@[(y2 * aw + x2) as int] == image.pixel_color(x2, y2));
        }
        vstd::arithmetic::mul::lemma_mul_is_commutative(b_w as int, b_h as int);
    }
    let mut y: usize = 0;
    while y < b_h
        invariant
            y <= b_h,
            b_w == image.info_header_width(),
            b_h == image.info_header_height(),
            colors@.len() == b_w * b_h,
            len == b_w * b_h,
            len == b_h * b_w,
            len <= usize::MAX,
            layer.id == id,
            layer.pos == pos,
            layer.size == (Size { width: b_w, height: b_h }),
            layer.format == PixelFormat::Bgr,
            !layer.disabled && !layer.always_on_top && !layer.pos_moved && layer.old_pos is None,
            layer.dirty == (y > 0 && b_w > 0),
            layer.buf@.len() == len,
            forall|y2: nat, x2: nat|
                y2 < b_h && x2 < b_w ==> #[trigger] colors@[(y2 * b_w + x2) as int] == image.pixel_color(x2, y2),
            forall|k: int|
                0 <= k < len ==> #[trigger] layer.buf@[k] == if k < y * b_w {
                    pixel_value(colors@[k], PixelFormat::Bgr)
                } else {
                    0u32
                },
        decreases b_h - y,
    {
        proof {
            crate::graphics::draw::canvas::lemma_row_within(b_w as int, y as int, b_h as int, len);
        }
        let mut x: usize = 0;
        while x < b_w
            invariant
                x <= b_w,
                y < b_h,
                b_w > 0 ==> y * b_w + b_w <= len,
                colors@.len() == len,
                layer.id == id,
                layer.pos == pos,
                layer.size == (Size { width: b_w, height: b_h }),
                layer.format == PixelFormat::Bgr,
                !layer.disabled && !layer.always_on_top && !layer.pos_moved && layer.old_pos is None,
                layer.dirty == ((y > 0 || x > 0) && b_w > 0),
                layer.buf@.len() == len,
                len == b_w * b_h,
                len <= usize::MAX,
                forall|k: int|
                    0 <= k < len ==> #[trigger] layer.buf@[k] == if k < y * b_w + x {
                        pixel_value(colors@[k], PixelFormat::Bgr)
                    } else {
                        0u32
                    },
            decreases b_w - x,
        {
            let c = colors[y * b_w + x];
            let r = layer.draw_pixel(Point::new(x, y), c);
            x = x + 1;
        }
        proof {
            vstd::arithmetic::mul::lemma_mul_is_distributive_add_other_way(b_w as int, y as int, 1);
        }
        y = y + 1;
    }
    proof {
        assert forall|y2: nat, x2: nat| y2 < b_h && x2 < b_w implies #[trigger] layer.buf@[y2 * b_w + x2] == pixel_value(
            image.pixel_color(x2, y2),
            PixelFormat::Bgr,
        ) by {
            crate::graphics::draw::canvas::lemma_row_within(b_w as int, y2 as int, b_h as int, len);
            assert(colors@[(y2 * b_w + x2) as int] == image.pixel_color(x2, y2));
        }
        let w = image.info_header_width() as int;
        let h = image.info_header_height() as int;
        assert(w == b_w && h == b_h);
        assert forall|y2: nat, x2: nat| y2 < h && x2 < w implies #[trigger] layer.buf@[y2 * w + x2] == pixel_value(
            image.pixel_color(x2, y2),
            PixelFormat::Bgr,
        ) by {
            assert(layer.buf@[y2 * b_w + x2] == pixel_value(image.pixel_color(x2, y2), PixelFormat::Bgr));
        }
        if b_w > 0 && b_h > 0 {
            vstd::arithmetic::mul::lemma_mul_strictly_positive(b_w as int, b_h as int);
        } else if b_w == 0 {
            assert(w * h == 0) by (nonlinear_arith)
                requires
                    w == 0,
            ;
        } else {
            assert(w * h == 0) by (nonlinear_arith)
                requires
                    h == 0,
            ;
        }
    }
    Ok(layer)
}

} // verus!
