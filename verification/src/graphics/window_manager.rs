use vstd::prelude::*;
use crate::error::Error;
use crate::graphics::geometry::{rect_contains, Point, Rect, Size};
use crate::graphics::multi_layer::LayerId;

verus! {

/// Errors of the window manager.
#[derive(Debug, Clone, Copy, PartialEq, Eq, Structural)]
pub enum WindowManagerError {
    MousePointerLayerWasNotFound,
    TaskbarLayerWasNotFound,
    WindowWasNotFound { layer_id: usize },
}

/// A mouse report: relative movement from a PS/2 mouse, or an absolute
/// position from a USB tablet; with the state of the left button.
#[derive(Debug, Clone, Copy, PartialEq, Eq, Structural)]
pub enum MouseEvent {
    Ps2Mouse { rel_x: i16, rel_y: i16, left: bool },
    UsbHidMouse { abs_x: usize, abs_y: usize, left: bool },
}

/// What the window manager knows of a window: its layer, where it is, where
/// its close button is within it, and whether it asked to come to the front.
#[derive(Debug, Clone, Copy, PartialEq, Eq, Structural)]
pub struct ManagedWindow {
    pub layer_id: LayerId,
    pub rect: Rect,
    pub close_button_offset: Point,
    pub close_button_size: Size,
    pub request_bring_to_front: bool,
}

/// Where the close button of a window is on the screen.
pub open spec fn close_button(w: ManagedWindow) -> Rect {
    Rect {
        origin: Point {
            x: (w.rect.origin.x + w.close_button_offset.x) as usize,
            y: (w.rect.origin.y + w.close_button_offset.y) as usize,
        },
        size: w.close_button_size,
    }
}

/// What the window manager asks of the layers, in order.
#[derive(Debug, Clone, Copy, PartialEq, Eq, Structural)]
pub enum WindowAction {
    MovePointer(Point),
    BringToFront(LayerId),
    CloseWindow(LayerId),
    MoveWindow(LayerId, Point),
}

/// The windows from back to front, the screen size, the mouse pointer's
/// area, and the window being dragged with the pointer's offset in it.
pub struct WindowManager {
    pub windows: Vec<ManagedWindow>,
    pub res: Option<Size>,
    pub mouse_pointer: Option<Rect>,
    pub dragging_window_id: Option<LayerId>,
    pub dragging_offset: Option<Point>,
    /// the area of the taskbar panel, once created
    pub taskbar: Option<Rect>,
    /// the path of the pointer image
    pub mouse_pointer_bmp_path: String,
}

/// Coordinates and sizes stay below 2^30, so their sums and differences fit.
pub open spec fn small_rect(r: Rect) -> bool {
    r.origin.x < 0x4000_0000 && r.origin.y < 0x4000_0000 && r.size.width < 0x4000_0000
        && r.size.height < 0x4000_0000
}

pub open spec fn window_small(w: ManagedWindow) -> bool {
    &&& small_rect(w.rect)
    &&& w.close_button_offset.x < 0x4000_0000
    &&& w.close_button_offset.y < 0x4000_0000
}

pub open spec fn wm_wf(wm: WindowManager) -> bool {
    &&& wm.res matches Some(r) ==> r.width < 0x4000_0000 && r.height < 0x4000_0000
    &&& wm.mouse_pointer matches Some(p) ==> small_rect(p)
    &&& forall|i: int| 0 <= i < wm.windows@.len() ==> #[trigger] window_small(wm.windows@[i])
    &&& wm.dragging_offset matches Some(o) ==> o.x < 0x4000_0000 && o.y < 0x4000_0000
}

pub open spec fn clamp(v: int, lo: int, hi: int) -> int {
    if v < lo {
        lo
    } else if v > hi {
        hi
    } else {
        v
    }
}

pub open spec fn sat_sub(a: int, b: int) -> int {
    if a > b {
        a - b
    } else {
        0
    }
}

/// Where the pointer goes: a PS/2 movement, at most 100 pixels each way, is
/// added and the pointer kept on the screen; a tablet position is kept on
/// the screen.
pub open spec fn pointer_after(p: Rect, res: Size, e: MouseEvent) -> Point {
    match e {
        MouseEvent::Ps2Mouse { rel_x, rel_y, .. } => Point {
            x: clamp(p.origin.x + clamp(rel_x as int, -100, 100), 0, res.width - p.size.width) as usize,
            y: clamp(p.origin.y + clamp(rel_y as int, -100, 100), 0, res.height - p.size.height) as usize,
        },
        MouseEvent::UsbHidMouse { abs_x, abs_y, .. } => Point {
            x: clamp(abs_x as int, 0, sat_sub(res.width as int, p.size.width as int)) as usize,
            y: clamp(abs_y as int, 0, sat_sub(res.height as int, p.size.height as int)) as usize,
        },
    }
}

pub open spec fn left_pressed(e: MouseEvent) -> bool {
    match e {
        MouseEvent::Ps2Mouse { left, .. } => left,
        MouseEvent::UsbHidMouse { left, .. } => left,
    }
}

/// The front-most window under `m` among the first `n`.
pub open spec fn top_hit(ws: Seq<ManagedWindow>, m: Point, n: int) -> Option<int>
    decreases n,
{
    if n <= 0 {
        None
    } else if rect_contains(ws[n - 1].rect, m) {
        Some(n - 1)
    } else {
        top_hit(ws, m, n - 1)
    }
}

/// The front-most window whose close button is under `m`, among the first `n`.
pub open spec fn top_close_hit(ws: Seq<ManagedWindow>, m: Point, n: int) -> Option<int>
    decreases n,
{
    if n <= 0 {
        None
    } else if rect_contains(close_button(ws[n - 1]), m) {
        Some(n - 1)
    } else {
        top_close_hit(ws, m, n - 1)
    }
}

/// The first window with the layer `id`, among the first `n`.
pub open spec fn window_index(ws: Seq<ManagedWindow>, id: LayerId, n: int) -> Option<int>
    decreases n,
{
    if n <= 0 {
        None
    } else {
        match window_index(ws, id, n - 1) {
            Some(i) => Some(i),
            None => if ws[n - 1].layer_id == id {
                Some(n - 1)
            } else {
                None
            },
        }
    }
}

/// The window moved to `pos`, its close button with it.
pub open spec fn moved(w: ManagedWindow, pos: Point) -> ManagedWindow {
    ManagedWindow { rect: Rect { origin: pos, size: w.rect.size }, ..w }
}

/// The state that a mouse event acts on.
#[derive(Debug, Clone, Copy, PartialEq, Eq, Structural)]
pub struct DragState {
    pub window: Option<LayerId>,
    pub offset: Option<Point>,
}

/// With the left button down and no window being dragged: the front-most
/// window under the pointer comes to the front and starts being dragged;
/// then the front-most window whose close button is under the pointer
/// closes, and nothing is dragged.
pub open spec fn press_step(ws: Seq<ManagedWindow>, m: Point) -> (Seq<ManagedWindow>, DragState, Seq<WindowAction>) {
    let (ws1, d1, a1) = match top_hit(ws, m, ws.len() as int) {
        None => (ws, DragState { window: None, offset: None }, Seq::<WindowAction>::empty()),
        Some(i) => {
            let w = ws[i];
            (
                ws.remove(i).push(ManagedWindow { request_bring_to_front: true, ..w }),
                DragState {
                    window: Some(w.layer_id),
                    offset: Some(
                        Point {
                            x: (m.x - w.rect.origin.x) as usize,
                            y: (m.y - w.rect.origin.y) as usize,
                        },
                    ),
                },
                seq![WindowAction::BringToFront(w.layer_id)],
            )
        },
    };
    match top_close_hit(ws1, m, ws1.len() as int) {
        None => (ws1, d1, a1),
        Some(j) => (
            ws1.remove(j),
            DragState { window: None, offset: None },
            a1.push(WindowAction::CloseWindow(ws1[j].layer_id)),
        ),
    }
}

/// With the left button down: the dragged window follows the pointer, kept
/// on the screen; with no offset to keep, the front-most window under the
/// pointer moves by the pointer's movement and becomes the dragged one.
pub open spec fn drag_step(ws: Seq<ManagedWindow>, d: DragState, res: Size, before: Point, m: Point) -> Result<(Seq<ManagedWindow>, DragState, Seq<WindowAction>), Error> {
    match (d.window, d.offset) {
        (Some(id), Some(off)) => match window_index(ws, id, ws.len() as int) {
            None => Err(Error::WindowManager(WindowManagerError::WindowWasNotFound { layer_id: id.0 })),
            Some(k) => {
                let w = ws[k];
                let pos = Point {
                    x: clamp(m.x - off.x, 0, sat_sub(res.width as int, w.rect.size.width as int)) as usize,
                    y: clamp(m.y - off.y, 0, sat_sub(res.height as int, w.rect.size.height as int)) as usize,
                };
                Ok((ws.update(k, moved(w, pos)), d, seq![WindowAction::MoveWindow(id, pos)]))
            },
        },
        _ => match top_hit(ws, m, ws.len() as int) {
            None => Ok((ws, d, Seq::empty())),
            Some(i) => {
                let w = ws[i];
                let pos = Point {
                    x: clamp(
                        w.rect.origin.x + (m.x - before.x),
                        0,
                        sat_sub(res.width as int, w.rect.size.width as int),
                    ) as usize,
                    y: clamp(
                        w.rect.origin.y + (m.y - before.y),
                        0,
                        sat_sub(res.height as int, w.rect.size.height as int),
                    ) as usize,
                };
                Ok(
                    (
                        ws.update(i, moved(w, pos)),
                        DragState { window: Some(w.layer_id), offset: d.offset },
                        seq![WindowAction::MoveWindow(w.layer_id, pos)],
                    ),
                )
            },
        },
    }
}

impl WindowManager {
    pub fn new() -> (res: Self)
        ensures
            res.windows@.len() == 0,
            res.res is None,
            res.mouse_pointer is None,
            res.dragging_window_id is None,
            res.dragging_offset is None,
            res.taskbar is None,
            res.mouse_pointer_bmp_path@ == Seq::<char>::empty(),
            wm_wf(res),
    {
        WindowManager {
            windows: Vec::new(),
            res: None,
            mouse_pointer: None,
            dragging_window_id: None,
            dragging_offset: None,
            taskbar: None,
            mouse_pointer_bmp_path: String::new(),
        }
    }

    /// Records the screen size and the path of the pointer image.
    pub fn init(&mut self, res: Size, mouse_pointer_bmp_path: String)
        requires
            wm_wf(*old(self)),
            res.width < 0x4000_0000,
            res.height < 0x4000_0000,
        ensures
            wm_wf(*final(self)),
            final(self).res == Some(res),
            final(self).mouse_pointer_bmp_path@ == mouse_pointer_bmp_path@,
            final(self).windows@ == old(self).windows@,
            final(self).mouse_pointer == old(self).mouse_pointer,
            final(self).taskbar == old(self).taskbar,
            final(self).dragging_window_id == old(self).dragging_window_id,
            final(self).dragging_offset == old(self).dragging_offset,
    {
        self.res = Some(res);
        self.mouse_pointer_bmp_path = mouse_pointer_bmp_path;
    }

    /// Places the taskbar: 30 pixels high, across the bottom of the screen.
    pub fn create_taskbar(&mut self) -> (res: Result<(), Error>)
        requires
            old(self).res matches Some(r) ==> r.height >= 30,
        ensures
            final(self).windows@ == old(self).windows@,
            final(self).res == old(self).res,
            final(self).mouse_pointer == old(self).mouse_pointer,
            final(self).dragging_window_id == old(self).dragging_window_id,
            final(self).dragging_offset == old(self).dragging_offset,
            match old(self).res {
                None => res == Err::<(), Error>(Error::NotInitialized) && final(self).taskbar == old(self).taskbar,
                Some(r) => res is Ok && final(self).taskbar == Some(
                    Rect { origin: Point { x: 0, y: (r.height - 30) as usize }, size: Size { width: r.width, height: 30 } },
                ),
            },
    {
        let res = match self.res {
            Some(r) => r,
            None => return Err(Error::NotInitialized),
        };
        let h: usize = 30;
        self.taskbar = Some(Rect { origin: Point { x: 0, y: res.height - h }, size: Size { width: res.width, height: h } });
        Ok(())
    }

    /// Adds a window on layer `layer_id` at `pos` of `size`, with its close
    /// button 16 by 14 pixels, 22 pixels from its right edge and 6 from its
    /// top; gives its layer.
    pub fn create_window(&mut self, layer_id: LayerId, pos: Point, size: Size) -> (res: Result<LayerId, Error>)
        requires
            wm_wf(*old(self)),
            size.width >= 22,
            small_rect(Rect { origin: pos, size }),
        ensures
            wm_wf(*final(self)),
            final(self).res == old(self).res,
            final(self).mouse_pointer == old(self).mouse_pointer,
            final(self).taskbar == old(self).taskbar,
            final(self).dragging_window_id == old(self).dragging_window_id,
            final(self).dragging_offset == old(self).dragging_offset,
            old(self).res is None ==> res == Err::<LayerId, Error>(Error::NotInitialized) && final(self).windows@
                == old(self).windows@,
            old(self).res is Some ==> res == Ok::<LayerId, Error>(layer_id) && final(self).windows@ == old(self).windows@.push(
                ManagedWindow {
                    layer_id,
                    rect: Rect { origin: pos, size },
                    close_button_offset: Point { x: (size.width - 22) as usize, y: 6 },
                    close_button_size: Size { width: 16, height: 14 },
                    request_bring_to_front: false,
                },
            ),
    {
        if self.res.is_none() {
            return Err(Error::NotInitialized);
        }
        let w = ManagedWindow {
            layer_id,
            rect: Rect { origin: pos, size },
            close_button_offset: Point { x: size.width - 22, y: 6 },
            close_button_size: Size { width: 16, height: 14 },
            request_bring_to_front: false,
        };
        self.windows.push(w);
        proof {
            assert forall|i: int| 0 <= i < self.windows@.len() implies #[trigger] window_small(self.windows@[i]) by {
                if i < old(self).windows@.len() {
                    assert(window_small(old(self).windows@[i]));
                }
            }
        }
        Ok(layer_id)
    }

    /// Removes the first window on layer `layer_id`.
    pub fn remove_component(&mut self, layer_id: LayerId) -> (res: Result<(), Error>)
        requires
            wm_wf(*old(self)),
        ensures
            wm_wf(*final(self)),
            final(self).res == old(self).res,
            final(self).mouse_pointer == old(self).mouse_pointer,
            final(self).taskbar == old(self).taskbar,
            final(self).dragging_window_id == old(self).dragging_window_id,
            final(self).dragging_offset == old(self).dragging_offset,
            old(self).res is None ==> res == Err::<(), Error>(Error::NotInitialized) && final(self).windows@
                == old(self).windows@,
            old(self).res is Some ==> match window_index(old(self).windows@, layer_id, old(self).windows@.len() as int) {
                Some(i) => res is Ok && final(self).windows@ == old(self).windows@.remove(i),
                None => res == Err::<(), Error>(
                    Error::WindowManager(WindowManagerError::WindowWasNotFound { layer_id: layer_id.0 }),
                ) && final(self).windows@ == old(self).windows@,
            },
    {
        if self.res.is_none() {
            return Err(Error::NotInitialized);
        }
        match self.window_index(layer_id) {
            Some(i) => {
                let ghost before = self.windows@;
                self.windows.remove(i);
                proof {
                    assert forall|j: int| 0 <= j < self.windows@.len() implies #[trigger] window_small(self.windows@[j]) by {
                        if j < i {
                            assert(window_small(before[j]));
                        } else {
                            assert(window_small(before[j + 1]));
                        }
                    }
                }
                Ok(())
            },
            None => Err(Error::WindowManager(WindowManagerError::WindowWasNotFound { layer_id: layer_id.get() })),
        }
    }

    fn top_hit(&self, m: Point) -> (res: Option<usize>)
        ensures
            match res {
                Some(i) => top_hit(self.windows@, m, self.windows@.len() as int) == Some(i as int) && i
                    < self.windows@.len(),
                None => top_hit(self.windows@, m, self.windows@.len() as int) is None,
            },
    {
        let mut n: usize = self.windows.len();
        while n > 0
            invariant
                n <= self.windows@.len(),
                top_hit(self.windows@, m, self.windows@.len() as int) == top_hit(self.windows@, m, n as int),
            decreases n,
        {
            if self.windows[n - 1].rect.contains(m) {
                return Some(n - 1);
            }
            n = n - 1;
        }
        None
    }

    fn top_close_hit(&self, m: Point) -> (res: Option<usize>)
        requires
            forall|i: int| 0 <= i < self.windows@.len() ==> #[trigger] window_small(self.windows@[i]),
        ensures
            match res {
                Some(i) => top_close_hit(self.windows@, m, self.windows@.len() as int) == Some(i as int)
                    && i < self.windows@.len(),
                None => top_close_hit(self.windows@, m, self.windows@.len() as int) is None,
            },
    {
        let mut n: usize = self.windows.len();
        while n > 0
            invariant
                n <= self.windows@.len(),
                forall|i: int| 0 <= i < self.windows@.len() ==> #[trigger] window_small(self.windows@[i]),
                top_close_hit(self.windows@, m, self.windows@.len() as int) == top_close_hit(
                    self.windows@,
                    m,
                    n as int,
                ),
            decreases n,
        {
            let w = self.windows[n - 1];
            assert(window_small(self.windows@[n - 1 as int]));
            let cb = Rect::new(
                w.rect.origin.x + w.close_button_offset.x,
                w.rect.origin.y + w.close_button_offset.y,
                w.close_button_size.width,
                w.close_button_size.height,
            );
            if cb.contains(m) {
                return Some(n - 1);
            }
            n = n - 1;
        }
        None
    }

    fn window_index(&self, id: LayerId) -> (res: Option<usize>)
        ensures
            match res {
                Some(i) => window_index(self.windows@, id, self.windows@.len() as int) == Some(i as int)
                    && i < self.windows@.len(),
                None => window_index(self.windows@, id, self.windows@.len() as int) is None,
            },
    {
        let mut i: usize = 0;
        while i < self.windows.len()
            invariant
                i <= self.windows@.len(),
                window_index(self.windows@, id, i as int) is None,
            decreases self.windows.len() - i,
        {
            if self.windows[i].layer_id == id {
                proof {
                    lemma_window_index_extends(self.windows@, id, i as int + 1, self.windows@.len() as int);
                }
                return Some(i);
            }
            i = i + 1;
        }
        None
    }

    /// The press step: see `press_step`.
    fn press(&mut self, m: Point) -> (res: Vec<WindowAction>)
        requires
            forall|i: int| 0 <= i < old(self).windows@.len() ==> #[trigger] window_small(old(self).windows@[i]),
            m.x < 0x4000_0000,
            m.y < 0x4000_0000,
        ensures
            final(self).dragging_offset matches Some(o) ==> o.x < 0x4000_0000 && o.y < 0x4000_0000,
            ({
                let (ws1, d1, a1) = press_step(old(self).windows@, m);
                &&& final(self).windows@ == ws1
                &&& final(self).dragging_window_id == d1.window
                &&& final(self).dragging_offset == d1.offset
                &&& res@ == a1
            }),
            forall|i: int| 0 <= i < final(self).windows@.len() ==> #[trigger] window_small(final(self).windows@[i]),
            final(self).res == old(self).res,
            final(self).mouse_pointer == old(self).mouse_pointer,
    {
        let ghost ws = self.windows@;
        let mut acts: Vec<WindowAction> = Vec::new();
        match self.top_hit(m) {
            Some(i) => {
                proof {
                    lemma_top_hit(self.windows@, m, self.windows@.len() as int);
                }
                let mut w = self.windows.remove(i);
                w.request_bring_to_front = true;
                let offset = Point::new(m.x - w.rect.origin.x, m.y - w.rect.origin.y);
                let id = w.layer_id;
                self.windows.push(w);
                self.dragging_window_id = Some(id);
                self.dragging_offset = Some(offset);
                acts.push(WindowAction::BringToFront(id));
                proof {
                    assert forall|q: int| 0 <= q < self.windows@.len() implies #[trigger] window_small(
                        self.windows@[q],
                    ) by {
                        if q < i {
                            assert(self.windows@[q] == ws[q]);
                        } else if q < self.windows@.len() - 1 {
                            assert(self.windows@[q] == ws[q + 1]);
                        } else {
                            assert(window_small(ws[i as int]));
                        }
                    }
                }
            },
            None => {
                self.dragging_window_id = None;
                self.dragging_offset = None;
            },
        }
        let ghost ws1 = self.windows@;
        match self.top_close_hit(m) {
            Some(j) => {
                proof {
                    lemma_top_hit(self.windows@, m, self.windows@.len() as int);
                }
                let id = self.windows[j].layer_id;
                self.windows.remove(j);
                self.dragging_window_id = None;
                self.dragging_offset = None;
                acts.push(WindowAction::CloseWindow(id));
                proof {
                    assert forall|q: int| 0 <= q < self.windows@.len() implies #[trigger] window_small(
                        self.windows@[q],
                    ) by {
                        if q < j {
                            assert(self.windows@[q] == ws1[q]);
                        } else {
                            assert(self.windows@[q] == ws1[q + 1]);
                        }
                    }
                }
            },
            None => {},
        }
        acts
    }

    /// The drag step: see `drag_step`.
    fn drag(&mut self, r: Size, before: Point, m: Point) -> (res: Result<Vec<WindowAction>, Error>)
        requires
            forall|i: int| 0 <= i < old(self).windows@.len() ==> #[trigger] window_small(old(self).windows@[i]),
            old(self).dragging_offset matches Some(o) ==> o.x < 0x4000_0000 && o.y < 0x4000_0000,
            r.width < 0x4000_0000,
            r.height < 0x4000_0000,
            before.x < 0x4000_0000,
            before.y < 0x4000_0000,
            m.x < 0x4000_0000,
            m.y < 0x4000_0000,
        ensures
            match drag_step(
                old(self).windows@,
                DragState { window: old(self).dragging_window_id, offset: old(self).dragging_offset },
                r,
                before,
                m,
            ) {
                Err(err) => res == Err::<Vec<WindowAction>, Error>(err),
                Ok((ws2, d2, a2)) => {
                    &&& res matches Ok(a) && a@ == a2
                    &&& final(self).windows@ == ws2
                    &&& final(self).dragging_window_id == d2.window
                    &&& final(self).dragging_offset == d2.offset
                },
            },
            forall|i: int| 0 <= i < final(self).windows@.len() ==> #[trigger] window_small(final(self).windows@[i]),
            final(self).res == old(self).res,
            final(self).mouse_pointer == old(self).mouse_pointer,
            final(self).dragging_offset == old(self).dragging_offset,
            res is Err ==> *final(self) == *old(self),
    {
        let mut actions: Vec<WindowAction> = Vec::new();
        match (self.dragging_window_id, self.dragging_offset) {
            (Some(id), Some(off)) => {
                let k = match self.window_index(id) {
                    Some(k) => k,
                    None => {
                        return Err(
                            Error::WindowManager(WindowManagerError::WindowWasNotFound { layer_id: id.0 }),
                        )
                    },
                };
                let w = self.windows[k];
                assert(window_small(self.windows@[k as int]));
                let max_x = if r.width > w.rect.size.width { r.width - w.rect.size.width } else { 0 };
                let max_y = if r.height > w.rect.size.height { r.height - w.rect.size.height } else { 0 };
                let pos = Point::new(
                    clamp_i64(m.x as i64 - off.x as i64, max_x as i64),
                    clamp_i64(m.y as i64 - off.y as i64, max_y as i64),
                );
                self.windows.set(k, move_window(w, pos));
                actions.push(WindowAction::MoveWindow(id, pos));
            },
            _ => {
                match self.top_hit(m) {
                    Some(i) => {
                        let w = self.windows[i];
                        assert(window_small(self.windows@[i as int]));
                        let max_x = if r.width > w.rect.size.width { r.width - w.rect.size.width } else { 0 };
                        let max_y = if r.height > w.rect.size.height {
                            r.height - w.rect.size.height
                        } else {
                            0
                        };
                        let pos = Point::new(
                            clamp_i64(w.rect.origin.x as i64 + (m.x as i64 - before.x as i64), max_x as i64),
                            clamp_i64(w.rect.origin.y as i64 + (m.y as i64 - before.y as i64), max_y as i64),
                        );
                        self.windows.set(i, move_window(w, pos));
                        self.dragging_window_id = Some(w.layer_id);
                        actions.push(WindowAction::MoveWindow(w.layer_id, pos));
                    },
                    None => {},
                }
            },
        }
        assert(actions@ =~= drag_step(
            old(self).windows@,
            DragState { window: old(self).dragging_window_id, offset: old(self).dragging_offset },
            r,
            before,
            m,
        ).unwrap().2);
        Ok(actions)
    }

    /// Moves the pointer for a mouse report, then, with the left button
    /// down, brings to the front, closes or drags windows; with the button
    /// up, stops dragging. Gives what to do to the layers, in order.
    pub fn mouse_pointer_event(&mut self, e: MouseEvent) -> (res: Result<Vec<WindowAction>, Error>)
        requires
            wm_wf(*old(self)),
            old(self).res is Some && old(self).mouse_pointer is Some && e is Ps2Mouse
                ==> old(self).mouse_pointer.unwrap().size.width <= old(self).res.unwrap().width
                && old(self).mouse_pointer.unwrap().size.height <= old(self).res.unwrap().height,
        ensures
            wm_wf(*final(self)),
            old(self).res is None ==> res == Err::<Vec<WindowAction>, Error>(Error::NotInitialized)
                && *final(self) == *old(self),
            old(self).res is Some && old(self).mouse_pointer is None ==> res == Err::<Vec<WindowAction>, Error>(
                Error::WindowManager(WindowManagerError::MousePointerLayerWasNotFound),
            ) && *final(self) == *old(self),
            old(self).res is Some && old(self).mouse_pointer is Some ==> ({
                let r = old(self).res.unwrap();
                let p = old(self).mouse_pointer.unwrap();
                let m = pointer_after(p, r, e);
                let ws = old(self).windows@;
                let d0 = DragState {
                    window: old(self).dragging_window_id,
                    offset: old(self).dragging_offset,
                };
                if !left_pressed(e) {
                    &&& res matches Ok(a) && a@ == seq![WindowAction::MovePointer(m)]
                    &&& final(self).windows@ == ws
                    &&& final(self).dragging_window_id is None
                    &&& final(self).dragging_offset is None
                    &&& final(self).mouse_pointer == Some(Rect { origin: m, size: p.size })
                } else {
                    let (ws1, d1, a1) = if d0.window is None {
                        press_step(ws, m)
                    } else {
                        (ws, d0, Seq::<WindowAction>::empty())
                    };
                    match drag_step(ws1, d1, r, p.origin, m) {
                        Err(err) => {
                            &&& res == Err::<Vec<WindowAction>, Error>(err)
                            &&& final(self).windows@ == ws1
                            &&& final(self).dragging_window_id == d1.window
                            &&& final(self).dragging_offset == d1.offset
                            &&& final(self).mouse_pointer == Some(Rect { origin: m, size: p.size })
                        },
                        Ok((ws2, d2, a2)) => {
                            &&& res matches Ok(a) && a@ == seq![WindowAction::MovePointer(m)] + a1 + a2
                            &&& final(self).windows@ == ws2
                            &&& final(self).dragging_window_id == d2.window
                            &&& final(self).dragging_offset == d2.offset
                            &&& final(self).mouse_pointer == Some(Rect { origin: m, size: p.size })
                        },
                    }
                }
            }),
            final(self).res == old(self).res,
    {
        let r = match self.res {
            Some(r) => r,
            None => return Err(Error::NotInitialized),
        };
        let p = match self.mouse_pointer {
            Some(p) => p,
            None => return Err(Error::WindowManager(WindowManagerError::MousePointerLayerWasNotFound)),
        };
        let m = pointer_position(p, r, e);
        self.mouse_pointer = Some(Rect::from_point_and_size(m, p.size));
        let left = match e {
            MouseEvent::Ps2Mouse { left, .. } => left,
            MouseEvent::UsbHidMouse { left, .. } => left,
        };
        if !left {
            self.dragging_window_id = None;
            self.dragging_offset = None;
            let mut actions: Vec<WindowAction> = Vec::new();
            actions.push(WindowAction::MovePointer(m));
            return Ok(actions);
        }
        let mut all: Vec<WindowAction> = Vec::new();
        all.push(WindowAction::MovePointer(m));
        if self.dragging_window_id.is_none() {
            let mut pressed = self.press(m);
            all.append(&mut pressed);
        }
        let mut rest = match self.drag(r, p.origin, m) {
            Ok(v) => v,
            Err(err) => return Err(err),
        };
        all.append(&mut rest);
        Ok(all)
    }
}

proof fn lemma_window_index_extends(ws: Seq<ManagedWindow>, id: LayerId, n: int, total: int)
    requires
        1 <= n <= total <= ws.len(),
        window_index(ws, id, n - 1) is None,
        ws[n - 1].layer_id == id,
    ensures
        window_index(ws, id, total) == Some(n - 1),
    decreases total - n,
{
    if n < total {
        lemma_window_index_extends(ws, id, n, total - 1);
    }
}

proof fn lemma_top_hit(ws: Seq<ManagedWindow>, m: Point, n: int)
    requires
        n <= ws.len(),
    ensures
        top_hit(ws, m, n) matches Some(i) ==> 0 <= i < n && rect_contains(ws[i].rect, m),
        top_close_hit(ws, m, n) matches Some(i) ==> 0 <= i < n,
        window_index(ws, LayerId(0), n) matches Some(i) ==> 0 <= i < n,
    decreases n,
{
    if n > 0 {
        lemma_top_hit(ws, m, n - 1);
    }
}

proof fn lemma_window_index(ws: Seq<ManagedWindow>, id: LayerId, n: int)
    requires
        n <= ws.len(),
    ensures
        window_index(ws, id, n) matches Some(i) ==> 0 <= i < n && ws[i].layer_id == id,
    decreases n,
{
    if n > 0 {
        lemma_window_index(ws, id, n - 1);
    }
}

/// `v` kept within `[0, hi]`.
fn clamp_i64(v: i64, hi: i64) -> (res: usize)
    requires
        0 <= hi < 0x4000_0000,
    ensures
        res == clamp(v as int, 0, hi as int),
{
    if v < 0 {
        0
    } else if v > hi {
        hi as usize
    } else {
        v as usize
    }
}

fn move_window(w: ManagedWindow, pos: Point) -> (res: ManagedWindow)
    ensures
        res == moved(w, pos),
{
    ManagedWindow { rect: Rect::from_point_and_size(pos, w.rect.size), ..w }
}

/// Where the pointer goes for a mouse report.
pub fn pointer_position(p: Rect, res: Size, e: MouseEvent) -> (m: Point)
    requires
        small_rect(p),
        res.width < 0x4000_0000,
        res.height < 0x4000_0000,
        e is Ps2Mouse ==> p.size.width <= res.width && p.size.height <= res.height,
    ensures
        m == pointer_after(p, res, e),
        m.x < 0x4000_0000,
        m.y < 0x4000_0000,
{
    match e {
        MouseEvent::Ps2Mouse { rel_x, rel_y, .. } => {
            let rx: i64 = if (rel_x as i64) < -100 { -100 } else if (rel_x as i64) > 100 { 100 } else { rel_x as i64 };
            let ry: i64 = if (rel_y as i64) < -100 { -100 } else if (rel_y as i64) > 100 { 100 } else { rel_y as i64 };
            Point::new(
                clamp_i64(p.origin.x as i64 + rx, (res.width - p.size.width) as i64),
                clamp_i64(p.origin.y as i64 + ry, (res.height - p.size.height) as i64),
            )
        },
        MouseEvent::UsbHidMouse { abs_x, abs_y, .. } => {
            let max_x = if res.width > p.size.width { res.width - p.size.width } else { 0 };
            let max_y = if res.height > p.size.height { res.height - p.size.height } else { 0 };
            Point::new(
                if abs_x > max_x { max_x } else { abs_x },
                if abs_y > max_y { max_y } else { abs_y },
            )
        },
    }
}

/// The pointer stays on the screen: after any report it lies wholly inside
/// the screen. A relative report moves it by at most 100 pixels per axis
/// from where it was on the screen, and exactly by the report where that
/// stays on the screen and within 100; an absolute report puts it at the
/// given position where the pointer fits there.
pub proof fn lemma_pointer_on_screen(p: Rect, res: Size, e: MouseEvent)
    requires
        p.size.width <= res.width,
        p.size.height <= res.height,
    ensures
        ({
            let m = pointer_after(p, res, e);
            &&& m.x + p.size.width <= res.width
            &&& m.y + p.size.height <= res.height
            &&& (e matches MouseEvent::Ps2Mouse { rel_x, rel_y, .. } ==> {
                &&& p.origin.x + p.size.width <= res.width ==> -100 <= m.x - p.origin.x <= 100
                &&& p.origin.y + p.size.height <= res.height ==> -100 <= m.y - p.origin.y <= 100
                &&& (-100 <= rel_x <= 100 && 0 <= p.origin.x + rel_x && p.origin.x + rel_x + p.size.width
                    <= res.width) ==> m.x == p.origin.x + rel_x
                &&& (-100 <= rel_y <= 100 && 0 <= p.origin.y + rel_y && p.origin.y + rel_y + p.size.height
                    <= res.height) ==> m.y == p.origin.y + rel_y
            })
            &&& (e matches MouseEvent::UsbHidMouse { abs_x, abs_y, .. } ==> {
                &&& abs_x + p.size.width <= res.width ==> m.x == abs_x
                &&& abs_y + p.size.height <= res.height ==> m.y == abs_y
            })
        }),
{
}

} // verus!
