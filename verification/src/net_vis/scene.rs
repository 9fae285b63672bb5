use vstd::prelude::*;
use vstd::string::StringExecFns;
use crate::graphics::color::ColorCode;
use crate::graphics::geometry::{Point, Rect, Size};
use crate::net_vis::{
    hook_label, AnimatedPacket, FunctionHook, LogEntry, NetworkVisualizer, PacketDirection, LAYER_HEIGHT,
    RX_LANE_X, TX_LANE_X,
};

verus! {

/// The canvas the visualizer draws on.
pub const CANVAS_WIDTH: usize = 332;
pub const CANVAS_HEIGHT: usize = 460;
/// The side of a packet's dot.
pub const PACKET_SIZE: usize = 10;
/// Where the log starts, and the height of one log line.
pub const LOG_AREA_Y: usize = 310;
pub const LOG_LINE_HEIGHT: usize = 16;

/// One drawing operation on the canvas.
pub enum DrawOp {
    Fill(ColorCode),
    Rect(Rect, ColorCode),
    /// text at a point, in a fore and a back color
    Text(Point, String, ColorCode, ColorCode),
}

/// A drawing operation with its text as characters.
pub enum OpView {
    Fill(ColorCode),
    Rect(Rect, ColorCode),
    Text(Point, Seq<char>, ColorCode, ColorCode),
}

pub open spec fn op_view(op: DrawOp) -> OpView {
    match op {
        DrawOp::Fill(c) => OpView::Fill(c),
        DrawOp::Rect(r, c) => OpView::Rect(r, c),
        DrawOp::Text(p, s, f, b) => OpView::Text(p, s@, f, b),
    }
}

pub open spec fn rgb(r: u8, g: u8, b: u8) -> ColorCode {
    ColorCode { r, g, b, a: 0 }
}

pub open spec fn dark_gray() -> ColorCode {
    rgb(80, 80, 80)
}

pub open spec fn gray() -> ColorCode {
    rgb(160, 160, 160)
}

pub open spec fn orange() -> ColorCode {
    rgb(255, 165, 0)
}

pub open spec fn green() -> ColorCode {
    rgb(0, 255, 0)
}

pub open spec fn dark_bg() -> ColorCode {
    rgb(20, 20, 30)
}

pub open spec fn layer_bg() -> ColorCode {
    rgb(30, 30, 45)
}

/// The color a hook is drawn in.
pub open spec fn hook_color(h: FunctionHook) -> ColorCode {
    match h {
        FunctionHook::ReceiveEthPayload | FunctionHook::SendEthPayload => gray(),
        FunctionHook::ReceiveArpPacket | FunctionHook::SendArpPacket => rgb(0, 255, 255),
        FunctionHook::ReceiveIpv4Paket => green(),
        FunctionHook::ReceiveIcmpPacket => rgb(255, 255, 0),
        FunctionHook::ReceiveTcpPacket | FunctionHook::SendTcpPacket => orange(),
        FunctionHook::ReceiveUdpPacket | FunctionHook::SendUdpPacket => rgb(100, 180, 255),
    }
}

impl FunctionHook {
    pub fn color(&self) -> (res: ColorCode)
        ensures
            res == hook_color(*self),
    {
        match self {
            FunctionHook::ReceiveEthPayload | FunctionHook::SendEthPayload => ColorCode::new_rgb(160, 160, 160),
            FunctionHook::ReceiveArpPacket | FunctionHook::SendArpPacket => ColorCode::new_rgb(0, 255, 255),
            FunctionHook::ReceiveIpv4Paket => ColorCode::new_rgb(0, 255, 0),
            FunctionHook::ReceiveIcmpPacket => ColorCode::new_rgb(255, 255, 0),
            FunctionHook::ReceiveTcpPacket | FunctionHook::SendTcpPacket => ColorCode::new_rgb(255, 165, 0),
            FunctionHook::ReceiveUdpPacket | FunctionHook::SendUdpPacket => ColorCode::new_rgb(100, 180, 255),
        }
    }
}

pub open spec fn rect_op(x: int, y: int, w: int, h: int, c: ColorCode) -> OpView {
    OpView::Rect(Rect { origin: Point { x: x as usize, y: y as usize }, size: Size { width: w as usize, height: h as usize } }, c)
}

pub open spec fn text_op(x: int, y: int, s: Seq<char>, fore: ColorCode, back: ColorCode) -> OpView {
    OpView::Text(Point { x: x as usize, y: y as usize }, s, fore, back)
}

/// The first `k` dashes of the separator at height `y`: 6 pixels long
/// (less at the right edge), every 12 pixels.
pub open spec fn dashes(y: int, k: int) -> Seq<OpView>
    decreases k,
{
    if k <= 0 {
        Seq::empty()
    } else {
        let dx = 12 * (k - 1);
        dashes(y, k - 1).push(rect_op(dx, y, if 6 < CANVAS_WIDTH - dx { 6 } else { CANVAS_WIDTH - dx }, 1, dark_gray()))
    }
}

/// How many dashes fit across the canvas.
pub open spec fn dash_count() -> int {
    28
}

pub open spec fn layer_name(i: int) -> Seq<char> {
    if i == 0 {
        "L1 Ethernet"@
    } else if i == 1 {
        "L2 ARP/IPv4"@
    } else {
        "L3 TCP/UDP/ICMP"@
    }
}

/// The band of layer `i`: a lighter background on even bands, a dashed
/// separator above every band but the first, and the band's name.
pub open spec fn layer_ops(i: int) -> Seq<OpView> {
    let y = 100 * i;
    (if i % 2 == 0 {
        seq![rect_op(0, y, CANVAS_WIDTH as int, 100, layer_bg())]
    } else {
        Seq::empty()
    }) + (if i > 0 {
        dashes(y, dash_count())
    } else {
        Seq::empty()
    }) + seq![text_op(5, y + 4, layer_name(i), dark_gray(), if i % 2 == 0 { layer_bg() } else { dark_bg() })]
}

/// The bands of the first `n` layers.
pub open spec fn layers_ops(n: int) -> Seq<OpView>
    decreases n,
{
    if n <= 0 {
        Seq::empty()
    } else {
        layers_ops(n - 1) + layer_ops(n - 1)
    }
}

/// The dotted lane guides for the rows from 20 below `y`.
pub open spec fn guides(y: int) -> Seq<OpView>
    decreases y,
{
    if y <= 20 {
        Seq::empty()
    } else {
        guides(y - 1) + if (y - 1) % 4 < 2 {
            seq![rect_op(130, y - 1, 1, 1, rgb(40, 60, 40)), rect_op(240, y - 1, 1, 1, rgb(60, 40, 40))]
        } else {
            Seq::empty()
        }
    }
}

/// The color of a packet's current phase, or gray when it has none.
pub open spec fn packet_color(p: AnimatedPacket) -> ColorCode {
    if p.current_phase < p.phases@.len() {
        hook_color(p.phases@[p.current_phase as int].hook)
    } else {
        gray()
    }
}

pub open spec fn packet_label(p: AnimatedPacket) -> Seq<char> {
    if p.current_phase < p.phases@.len() {
        hook_label(p.phases@[p.current_phase as int].hook)
    } else {
        "?"@
    }
}

/// A packet's color as drawn: dimmed to a third, or a half, as it fades.
pub open spec fn shown_color(p: AnimatedPacket) -> ColorCode {
    let c = packet_color(p);
    if p.done && p.age > 15 {
        rgb(c.r / 3, c.g / 3, c.b / 3)
    } else if p.done {
        rgb(c.r / 2, c.g / 2, c.b / 2)
    } else {
        c
    }
}

/// A packet's dot and, where there is room, its label; nothing for a
/// packet off the canvas.
pub open spec fn packet_ops(p: AnimatedPacket) -> Seq<OpView> {
    if p.y + 10 <= CANVAS_HEIGHT && p.x + 10 <= CANVAS_WIDTH {
        let c = shown_color(p);
        let bg = if (p.y / 100) % 2 == 0 { layer_bg() } else { dark_bg() };
        seq![rect_op(p.x as int, p.y as int, 10, 10, c)] + if p.x + 12 + 40 <= CANVAS_WIDTH {
            seq![text_op(p.x + 12, p.y as int, packet_label(p), c, bg)]
        } else {
            Seq::empty()
        }
    } else {
        Seq::empty()
    }
}

pub open spec fn packets_ops(ps: Seq<AnimatedPacket>) -> Seq<OpView>
    decreases ps.len(),
{
    if ps.len() == 0 {
        Seq::empty()
    } else {
        packets_ops(ps.drop_last()) + packet_ops(ps.last())
    }
}

/// Log line `i` (0 for the newest entry) for `e`.
pub open spec fn log_line_ops(e: LogEntry, i: int) -> Seq<OpView> {
    let y = LOG_AREA_Y + LOG_LINE_HEIGHT + i * LOG_LINE_HEIGHT;
    let (d, dc) = match e.direction {
        PacketDirection::Rx => ("RX"@, green()),
        PacketDirection::Tx => ("TX"@, orange()),
    };
    seq![
        text_op(4, y, d, dc, dark_bg()),
        text_op(30, y, hook_label(e.hook), hook_color(e.hook), dark_bg()),
        text_op(70, y, e.detail@, gray(), dark_bg()),
    ]
}

/// The first `n` log lines, newest first.
pub open spec fn log_ops(es: Seq<LogEntry>, n: int) -> Seq<OpView>
    decreases n,
{
    if n <= 0 {
        Seq::empty()
    } else {
        log_ops(es, n - 1) + log_line_ops(es[es.len() - n], n - 1)
    }
}

/// How many log lines fit below the log heading.
pub open spec fn log_lines(len: int) -> int {
    if len < 8 {
        len
    } else {
        8
    }
}

/// What a redraw of the visualizer draws, in order: the background, the
/// layer bands, the lane labels and guides, the packets, the log heading
/// and the log lines that fit, newest first.
pub open spec fn scene_ops(v: NetworkVisualizer) -> Seq<OpView> {
    seq![OpView::Fill(dark_bg())] + layers_ops(3) + seq![
        text_op(110, 4, "RX v"@, green(), layer_bg()),
        text_op(220, 4, "TX ^"@, orange(), layer_bg()),
    ] + guides(300) + packets_ops(v.animated_packets@) + seq![
        rect_op(0, LOG_AREA_Y - 2, CANVAS_WIDTH as int, 1, dark_gray()),
        text_op(2, LOG_AREA_Y as int, "Recent:"@, gray(), dark_bg()),
    ] + log_ops(v.log_entries@, log_lines(v.log_entries@.len() as int))
}

pub open spec fn views(s: Seq<DrawOp>) -> Seq<OpView> {
    s.map_values(|o: DrawOp| op_view(o))
}

fn push_op(ops: &mut Vec<DrawOp>, op: DrawOp)
    ensures
        views(final(ops)@) == views(old(ops)@).push(op_view(op)),
{
    ops.push(op);
    assert(views(ops@) =~= views(old(ops)@).push(op_view(op)));
}

fn push_rect(ops: &mut Vec<DrawOp>, x: usize, y: usize, w: usize, h: usize, c: ColorCode)
    ensures
        views(final(ops)@) == views(old(ops)@).push(rect_op(x as int, y as int, w as int, h as int, c)),
{
    push_op(ops, DrawOp::Rect(Rect::new(x, y, w, h), c));
}

fn push_text(ops: &mut Vec<DrawOp>, x: usize, y: usize, s: String, fore: ColorCode, back: ColorCode)
    ensures
        views(final(ops)@) == views(old(ops)@).push(text_op(x as int, y as int, s@, fore, back)),
{
    push_op(ops, DrawOp::Text(Point::new(x, y), s, fore, back));
}

impl NetworkVisualizer {
    /// What a redraw draws on the canvas, in order.
    pub fn canvas_ops(&self) -> (res: Vec<DrawOp>)
        requires
            self.wf(),
        ensures
            views(res@) == scene_ops(*self),
    {
        let c_dark_gray = ColorCode::new_rgb(80, 80, 80);
        let c_gray = ColorCode::new_rgb(160, 160, 160);
        let c_dark_bg = ColorCode::new_rgb(20, 20, 30);
        let c_layer_bg = ColorCode::new_rgb(30, 30, 45);
        let c_orange = ColorCode::new_rgb(255, 165, 0);
        let c_green = ColorCode::new_rgb(0, 255, 0);
        let mut ops: Vec<DrawOp> = Vec::new();
        push_op(&mut ops, DrawOp::Fill(c_dark_bg));
        assert(views(Seq::<DrawOp>::empty()) =~= Seq::<OpView>::empty());
        let ghost head = seq![OpView::Fill(dark_bg())];
        assert(views(ops@) =~= head + layers_ops(0));
        let mut i: usize = 0;
        while i < 3
            invariant
                i <= 3,
                c_dark_gray == dark_gray() && c_dark_bg == dark_bg() && c_layer_bg == layer_bg(),
                views(ops@) == head + layers_ops(i as int),
            decreases 3 - i,
        {
            let ghost before = views(ops@);
            let y = i * LAYER_HEIGHT;
            if i % 2 == 0 {
                push_rect(&mut ops, 0, y, CANVAS_WIDTH, LAYER_HEIGHT, c_layer_bg);
            }
            let ghost mid = views(ops@);
            if i > 0 {
                let mut dx: usize = 0;
                let ghost mut k: int = 0;
                assert(mid + dashes(y as int, 0) =~= mid);
                while dx < CANVAS_WIDTH
                    invariant
                        dx == 12 * k,
                        0 <= k,
                        dx <= 336,
                        y == 100 * i,
                        c_dark_gray == dark_gray(),
                        views(ops@) == mid + dashes(y as int, k),
                    decreases 336 - dx,
                {
                    let seg = if 6 < CANVAS_WIDTH - dx { 6 } else { CANVAS_WIDTH - dx };
                    push_rect(&mut ops, dx, y, seg, 1, c_dark_gray);
                    proof {
                        k = k + 1;
                        assert(mid + dashes(y as int, k) =~= (mid + dashes(y as int, k - 1)).push(
                            rect_op(12 * (k - 1), y as int, seg as int, 1, dark_gray()),
                        ));
                    }
                    dx = dx + 12;
                }
                assert(k == dash_count());
            }
            let name = if i == 0 {
                String::from_str("L1 Ethernet")
            } else if i == 1 {
                String::from_str("L2 ARP/IPv4")
            } else {
                String::from_str("L3 TCP/UDP/ICMP")
            };
            push_text(&mut ops, 5, y + 4, name, c_dark_gray, if i % 2 == 0 { c_layer_bg } else { c_dark_bg });
            proof {
                assert(views(ops@) =~= head + layers_ops(i + 1));
            }
            i = i + 1;
        }
        push_text(&mut ops, RX_LANE_X + 10, 4, String::from_str("RX v"), c_green, c_layer_bg);
        push_text(&mut ops, TX_LANE_X + 10, 4, String::from_str("TX ^"), c_orange, c_layer_bg);
        let ghost head2 = views(ops@);
        assert(head2 =~= head + layers_ops(3) + seq![
            text_op(110, 4, "RX v"@, green(), layer_bg()),
            text_op(220, 4, "TX ^"@, orange(), layer_bg()),
        ]);
        let mut gy: usize = 20;
        assert(head2 + guides(20) =~= head2);
        while gy < 300
            invariant
                20 <= gy <= 300,
                views(ops@) == head2 + guides(gy as int),
            decreases 300 - gy,
        {
            let ghost before = views(ops@);
            if gy % 4 < 2 {
                push_rect(&mut ops, RX_LANE_X + 30, gy, 1, 1, ColorCode::new_rgb(40, 60, 40));
                push_rect(&mut ops, TX_LANE_X + 30, gy, 1, 1, ColorCode::new_rgb(60, 40, 40));
            }
            proof {
                assert(views(ops@) =~= head2 + guides(gy + 1));
            }
            gy = gy + 1;
        }
        let ghost head3 = views(ops@);
        let ghost ps = self.animated_packets@;
        let mut k: usize = 0;
        assert(ps.take(0) =~= Seq::<AnimatedPacket>::empty());
        assert(head3 + packets_ops(ps.take(0)) =~= head3);
        while k < self.animated_packets.len()
            invariant
                k <= ps.len(),
                ps == self.animated_packets@,
                self.wf(),
                c_gray == gray() && c_dark_bg == dark_bg() && c_layer_bg == layer_bg(),
                views(ops@) == head3 + packets_ops(ps.take(k as int)),
            decreases ps.len() - k,
        {
            let p = &self.animated_packets[k];
            assert(ps.take(k + 1).drop_last() =~= ps.take(k as int));
            assert(crate::net_vis::packet_ok(ps[k as int]));
            if p.y <= CANVAS_HEIGHT - PACKET_SIZE && p.x <= CANVAS_WIDTH - PACKET_SIZE {
                let has_phase = p.current_phase < p.phases.len();
                let base = if has_phase {
                    p.phases[p.current_phase].hook.color()
                } else {
                    c_gray
                };
                let c = if p.done && p.age > 15 {
                    ColorCode::new_rgb(base.r / 3, base.g / 3, base.b / 3)
                } else if p.done {
                    ColorCode::new_rgb(base.r / 2, base.g / 2, base.b / 2)
                } else {
                    base
                };
                push_rect(&mut ops, p.x, p.y, PACKET_SIZE, PACKET_SIZE, c);
                let bg = if (p.y / LAYER_HEIGHT) % 2 == 0 { c_layer_bg } else { c_dark_bg };
                if p.x + PACKET_SIZE + 2 + 40 <= CANVAS_WIDTH {
                    let label = if has_phase {
                        String::from_str(p.phases[p.current_phase].hook.label())
                    } else {
                        String::from_str("?")
                    };
                    push_text(&mut ops, p.x + PACKET_SIZE + 2, p.y, label, c, bg);
                }
            }
            proof {
                assert(views(ops@) =~= head3 + packets_ops(ps.take(k + 1)));
            }
            k = k + 1;
        }
        assert(ps.take(ps.len() as int) =~= ps);
        push_rect(&mut ops, 0, LOG_AREA_Y - 2, CANVAS_WIDTH, 1, c_dark_gray);
        push_text(&mut ops, 2, LOG_AREA_Y, String::from_str("Recent:"), c_gray, c_dark_bg);
        let ghost head4 = views(ops@);
        let ghost es = self.log_entries@;
        let len = self.log_entries.len();
        let lines = if len < 8 { len } else { 8 };
        let mut j: usize = 0;
        assert(head4 + log_ops(es, 0) =~= head4);
        while j < lines
            invariant
                j <= lines,
                lines == log_lines(len as int),
                len == es.len(),
                es == self.log_entries@,
                c_gray == gray() && c_dark_bg == dark_bg() && c_orange == orange() && c_green == green(),
                views(ops@) == head4 + log_ops(es, j as int),
            decreases lines - j,
        {
            let e = &self.log_entries[len - 1 - j];
            let y = LOG_AREA_Y + LOG_LINE_HEIGHT + j * LOG_LINE_HEIGHT;
            let (d, dc) = match e.direction {
                PacketDirection::Rx => (String::from_str("RX"), c_green),
                PacketDirection::Tx => (String::from_str("TX"), c_orange),
            };
            push_text(&mut ops, 4, y, d, dc, c_dark_bg);
            push_text(&mut ops, 30, y, String::from_str(e.hook.label()), e.hook.color(), c_dark_bg);
            push_text(&mut ops, 70, y, e.detail.clone(), c_gray, c_dark_bg);
            proof {
                assert(es[es.len() - (j + 1)] == es[len - 1 - j]);
                assert(views(ops@) =~= head4 + log_ops(es, j + 1));
            }
            j = j + 1;
        }
        ops
    }
}

} // verus!
