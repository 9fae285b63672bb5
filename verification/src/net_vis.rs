pub mod scene;

use vstd::prelude::*;

verus! {

/// The height of one protocol layer's band, in pixels.
pub const LAYER_HEIGHT: usize = 100;
/// The x position of the receive lane and of the send lane.
pub const RX_LANE_X: usize = 100;
pub const TX_LANE_X: usize = 210;
/// How far a packet moves per redraw.
pub const ANIM_SPEED: usize = 30;
/// How many redraws a packet rests at each layer.
pub const PAUSE_FRAMES: usize = 5;
/// How many packets and log lines are kept.
pub const MAX_ANIMATED_PACKETS: usize = 32;
pub const MAX_LOG_ENTRIES: usize = 8;
/// For how many redraws a finished packet stays.
pub const FADE_FRAMES: usize = 30;

/// The network functions that report packets.
#[derive(Debug, Clone, Copy, PartialEq, Eq, Structural)]
pub enum FunctionHook {
    ReceiveEthPayload,
    ReceiveArpPacket,
    ReceiveIpv4Paket,
    ReceiveIcmpPacket,
    ReceiveTcpPacket,
    ReceiveUdpPacket,
    SendEthPayload,
    SendArpPacket,
    SendTcpPacket,
    SendUdpPacket,
}

#[derive(Debug, Clone, Copy, PartialEq, Eq, Structural)]
pub enum PacketDirection {
    Rx,
    Tx,
}

#[derive(Debug, Clone, Copy, PartialEq, Eq, Structural)]
pub enum NetworkLayer {
    L1Ethernet,
    L2Network,
    L3Transport,
}

pub open spec fn hook_direction(h: FunctionHook) -> PacketDirection {
    match h {
        FunctionHook::ReceiveEthPayload | FunctionHook::ReceiveArpPacket | FunctionHook::ReceiveIpv4Paket
        | FunctionHook::ReceiveIcmpPacket | FunctionHook::ReceiveTcpPacket
        | FunctionHook::ReceiveUdpPacket => PacketDirection::Rx,
        _ => PacketDirection::Tx,
    }
}

pub open spec fn hook_layer(h: FunctionHook) -> NetworkLayer {
    match h {
        FunctionHook::ReceiveEthPayload | FunctionHook::SendEthPayload => NetworkLayer::L1Ethernet,
        FunctionHook::ReceiveArpPacket | FunctionHook::SendArpPacket
        | FunctionHook::ReceiveIpv4Paket => NetworkLayer::L2Network,
        _ => NetworkLayer::L3Transport,
    }
}

/// The middle of a layer's band.
pub open spec fn center_y(l: NetworkLayer) -> int {
    match l {
        NetworkLayer::L1Ethernet => 50,
        NetworkLayer::L2Network => 150,
        NetworkLayer::L3Transport => 250,
    }
}

/// Hooks that begin a packet's journey: a frame coming in, or a segment,
/// datagram or ARP message going out.
pub open spec fn starts_flow(h: FunctionHook) -> bool {
    h == FunctionHook::ReceiveEthPayload || h == FunctionHook::SendTcpPacket || h == FunctionHook::SendUdpPacket
        || h == FunctionHook::SendArpPacket
}

/// The protocol a hook is shown under.
pub open spec fn hook_label(h: FunctionHook) -> Seq<char> {
    match h {
        FunctionHook::ReceiveEthPayload | FunctionHook::SendEthPayload => "ETH"@,
        FunctionHook::ReceiveArpPacket | FunctionHook::SendArpPacket => "ARP"@,
        FunctionHook::ReceiveIpv4Paket => "IPv4"@,
        FunctionHook::ReceiveIcmpPacket => "ICMP"@,
        FunctionHook::ReceiveTcpPacket | FunctionHook::SendTcpPacket => "TCP"@,
        FunctionHook::ReceiveUdpPacket | FunctionHook::SendUdpPacket => "UDP"@,
    }
}

impl FunctionHook {
    pub fn direction(&self) -> (res: PacketDirection)
        ensures
            res == hook_direction(*self),
    {
        match self {
            FunctionHook::ReceiveEthPayload | FunctionHook::ReceiveArpPacket | FunctionHook::ReceiveIpv4Paket
            | FunctionHook::ReceiveIcmpPacket | FunctionHook::ReceiveTcpPacket
            | FunctionHook::ReceiveUdpPacket => PacketDirection::Rx,
            _ => PacketDirection::Tx,
        }
    }

    pub fn layer(&self) -> (res: NetworkLayer)
        ensures
            res == hook_layer(*self),
    {
        match self {
            FunctionHook::ReceiveEthPayload | FunctionHook::SendEthPayload => NetworkLayer::L1Ethernet,
            FunctionHook::ReceiveArpPacket | FunctionHook::SendArpPacket
            | FunctionHook::ReceiveIpv4Paket => NetworkLayer::L2Network,
            _ => NetworkLayer::L3Transport,
        }
    }

    pub fn label(&self) -> (res: &'static str)
        ensures
            res@ == hook_label(*self),
    {
        match self {
            FunctionHook::ReceiveEthPayload | FunctionHook::SendEthPayload => "ETH",
            FunctionHook::ReceiveArpPacket | FunctionHook::SendArpPacket => "ARP",
            FunctionHook::ReceiveIpv4Paket => "IPv4",
            FunctionHook::ReceiveIcmpPacket => "ICMP",
            FunctionHook::ReceiveTcpPacket | FunctionHook::SendTcpPacket => "TCP",
            FunctionHook::ReceiveUdpPacket | FunctionHook::SendUdpPacket => "UDP",
        }
    }
}

pub fn layer_center_y(layer: NetworkLayer) -> (res: usize)
    ensures
        res == center_y(layer),
{
    let idx: usize = match layer {
        NetworkLayer::L1Ethernet => 0,
        NetworkLayer::L2Network => 1,
        NetworkLayer::L3Transport => 2,
    };
    idx * LAYER_HEIGHT + LAYER_HEIGHT / 2
}

/// One stop of a packet: the hook that reported it and the height of its
/// layer.
#[derive(Debug, Clone, Copy, PartialEq, Eq, Structural)]
pub struct PacketPhase {
    pub hook: FunctionHook,
    pub target_y: usize,
}

/// A packet moving through the layers.
#[derive(Debug)]
pub struct AnimatedPacket {
    pub direction: PacketDirection,
    pub x: usize,
    pub y: usize,
    pub phases: Vec<PacketPhase>,
    pub current_phase: usize,
    pub pause_remaining: usize,
    pub age: usize,
    pub done: bool,
    pub flow_complete: bool,
}

/// A line of the packet log.
#[derive(Debug)]
pub struct LogEntry {
    pub direction: PacketDirection,
    pub hook: FunctionHook,
    pub detail: String,
}

/// The packets on screen may move: their positions stay small and their
/// current phase is one of their phases.
pub open spec fn packet_shape(p: AnimatedPacket) -> bool {
    &&& p.y <= 1000
    &&& p.age <= 30
    &&& (p.phases@.len() > 0 ==> p.current_phase < p.phases@.len())
    &&& (p.phases@.len() == 0 ==> p.current_phase == 0)
    &&& forall|k: int| 0 <= k < p.phases@.len() ==> #[trigger] p.phases@[k].target_y <= 250
}

/// A packet just moved on: sound, and faded out only if finished.
pub open spec fn settled(p: AnimatedPacket) -> bool {
    packet_shape(p) && (p.done || p.age < 30)
}

/// A packet on screen: its shape is sound and it has not yet faded out.
pub open spec fn packet_ok(p: AnimatedPacket) -> bool {
    packet_shape(p) && p.age < 30
}

/// `p1` is `p0` one redraw later: a finished packet ages; one away from its
/// layer moves toward it by up to 30 pixels and rests on arriving; one
/// resting waits; then it goes on to its next phase, or is finished.
pub open spec fn stepped(p0: AnimatedPacket, p1: AnimatedPacket) -> bool {
    &&& p1.direction == p0.direction
    &&& p1.x == p0.x
    &&& p1.phases@ == p0.phases@
    &&& p1.flow_complete == p0.flow_complete
    &&& if p0.done {
        p1.age == p0.age + 1 && p1.y == p0.y && p1.current_phase == p0.current_phase && p1.pause_remaining
            == p0.pause_remaining && p1.done
    } else if p0.phases@.len() == 0 {
        p1.age == p0.age && p1.y == p0.y && p1.current_phase == p0.current_phase && p1.pause_remaining
            == p0.pause_remaining && !p1.done
    } else {
        let target = p0.phases@[p0.current_phase as int].target_y;
        &&& p1.age == p0.age
        &&& if p0.y != target {
            let y = if p0.y < target {
                if p0.y + 30 < target { p0.y + 30 } else { target as int }
            } else {
                if p0.y - 30 < target { target as int } else { p0.y - 30 }
            };
            &&& p1.y == y
            &&& p1.pause_remaining == if y == target { 5 } else { p0.pause_remaining as int }
            &&& p1.current_phase == p0.current_phase && !p1.done
        } else if p0.pause_remaining > 0 {
            p1.y == p0.y && p1.pause_remaining == p0.pause_remaining - 1 && p1.current_phase
                == p0.current_phase && !p1.done
        } else if p0.current_phase + 1 < p0.phases@.len() {
            p1.y == p0.y && p1.pause_remaining == 0 && p1.current_phase == p0.current_phase + 1 && !p1.done
        } else {
            p1.y == p0.y && p1.pause_remaining == 0 && p1.current_phase == p0.current_phase && p1.done
        }
    }
}

/// A packet stays until it has been finished for 30 redraws.
pub open spec fn kept(p: AnimatedPacket) -> bool {
    !p.done || p.age < 30
}

/// The packets of `s` that stay, in order.
pub open spec fn kept_of(s: Seq<AnimatedPacket>) -> Seq<AnimatedPacket>
    decreases s.len(),
{
    if s.len() == 0 {
        s
    } else if kept(s.last()) {
        kept_of(s.drop_last()).push(s.last())
    } else {
        kept_of(s.drop_last())
    }
}

/// The last packet of direction `d` whose journey is still being reported.
pub open spec fn open_flow(s: Seq<AnimatedPacket>, d: PacketDirection, n: int) -> Option<int>
    decreases n,
{
    if n <= 0 {
        None
    } else if s[n - 1].direction == d && !s[n - 1].flow_complete && !s[n - 1].done {
        Some(n - 1)
    } else {
        open_flow(s, d, n - 1)
    }
}

/// The packet log and the packets on screen, with the next slot of each
/// lane and the reports not yet shown.
#[derive(Debug)]
pub struct NetworkVisualizer {
    pub fn_hooks: Vec<(FunctionHook, String)>,
    pub animated_packets: Vec<AnimatedPacket>,
    pub log_entries: Vec<LogEntry>,
    pub rx_slot: usize,
    pub tx_slot: usize,
}

/// What the display shows: its packets, its log and its two lane slots.
pub type VisState = (Seq<AnimatedPacket>, Seq<LogEntry>, usize, usize);

/// The display state of a visualizer.
pub open spec fn vis_state(v: NetworkVisualizer) -> VisState {
    (v.animated_packets@, v.log_entries@, v.rx_slot, v.tx_slot)
}

/// Showing the report `(fh, detail)` takes the display from `a` to `b`:
/// the report is logged (the log keeps the last 8 lines); a hook that
/// starts a flow adds a packet in the next slot of its lane (keeping the
/// last 32), and any other hook adds its phase to the newest open flow of
/// its direction.
pub open spec fn hook_step(a: VisState, fh: FunctionHook, detail: String, b: VisState) -> bool {
        let d = hook_direction(fh);
        let phase = PacketPhase { hook: fh, target_y: center_y(hook_layer(fh)) as usize };
        let entry = LogEntry { direction: d, hook: fh, detail };
        let logs = a.1.push(entry);
        let old_ps = a.0;
        let ps = b.0;
        &&& b.1 == if logs.len() > 8 { logs.drop_first() } else { logs }
        &&& if starts_flow(fh) {
            let slot = if d == PacketDirection::Rx { a.2 } else { a.3 };
            let n = old_ps.len();
            let p = ps[ps.len() - 1];
            &&& b.2 == if d == PacketDirection::Rx { (a.2 + 1) % 4 } else { a.2 as int }
            &&& b.3 == if d == PacketDirection::Tx { (a.3 + 1) % 4 } else { a.3 as int }
            &&& ps.len() == if n + 1 > 32 { 32 } else { n + 1 }
            &&& ps.drop_last() == if n + 1 > 32 { old_ps.drop_first() } else { old_ps }
            &&& p.direction == d
            &&& p.x == (if d == PacketDirection::Rx { 100int } else { 210int }) + slot * 20
            &&& p.y == if d == PacketDirection::Rx { 0 } else { center_y(hook_layer(fh)) }
            &&& p.phases@ == seq![phase]
            &&& p.current_phase == 0
            &&& p.pause_remaining == if d == PacketDirection::Tx { 5int } else { 0 }
            &&& p.age == 0 && !p.done && !p.flow_complete
        } else {
            &&& b.2 == a.2
            &&& b.3 == a.3
            &&& ps.len() == old_ps.len()
            &&& match open_flow(old_ps, d, old_ps.len() as int) {
                None => ps == old_ps,
                Some(k) => {
                    &&& forall|j: int| 0 <= j < ps.len() && j != k ==> ps[j] == old_ps[j]
                    &&& ps[k].phases@ == old_ps[k].phases@.push(phase)
                    &&& ps[k].flow_complete == (fh == FunctionHook::SendEthPayload)
                    &&& ps[k].direction == old_ps[k].direction && ps[k].x == old_ps[k].x && ps[k].y
                        == old_ps[k].y && ps[k].current_phase == old_ps[k].current_phase
                        && ps[k].pause_remaining == old_ps[k].pause_remaining && ps[k].age
                        == old_ps[k].age && ps[k].done == old_ps[k].done
                },
            }
        }
}

/// The display states passed through while showing `hooks` in order from
/// `st[0]`.
pub open spec fn hooks_fold(st: Seq<VisState>, hooks: Seq<(FunctionHook, String)>) -> bool {
    &&& st.len() == hooks.len() + 1
    &&& forall|k: int| 0 <= k < hooks.len() ==> #[trigger] hook_step(st[k], hooks[k].0, hooks[k].1, st[k + 1])
}

impl NetworkVisualizer {
    pub open spec fn wf(&self) -> bool {
        &&& self.animated_packets@.len() <= 32
        &&& self.log_entries@.len() <= 8
        &&& self.rx_slot < 4
        &&& self.tx_slot < 4
        &&& forall|k: int| 0 <= k < self.animated_packets@.len() ==> #[trigger] packet_ok(self.animated_packets@[k])
    }

    pub fn new() -> (res: Self)
        ensures
            res.wf(),
            res.fn_hooks@.len() == 0,
            res.animated_packets@.len() == 0,
            res.log_entries@.len() == 0,
            res.rx_slot == 0,
            res.tx_slot == 0,
    {
        NetworkVisualizer {
            fn_hooks: Vec::new(),
            animated_packets: Vec::new(),
            log_entries: Vec::new(),
            rx_slot: 0,
            tx_slot: 0,
        }
    }

    /// Queues a report to be shown at the next redraw.
    pub fn hook(&mut self, fn_hook: FunctionHook, detail: String)
        ensures
            final(self).fn_hooks@ == old(self).fn_hooks@.push((fn_hook, detail)),
            final(self).animated_packets@ == old(self).animated_packets@,
            final(self).log_entries@ == old(self).log_entries@,
            final(self).rx_slot == old(self).rx_slot,
            final(self).tx_slot == old(self).tx_slot,
    {
        self.fn_hooks.push((fn_hook, detail));
    }

    /// Shows one report: a report that begins a journey starts a packet in
    /// the next slot of its lane (dropping the oldest packet beyond 32); any
    /// other adds a stop to the last open packet of its direction, and a
    /// frame going out closes it. Each report is logged; the log keeps the
    /// last 8.
    #[verifier::loop_isolation(false)]
    pub fn process_hook(&mut self, fh: FunctionHook, detail: String)
        requires
            old(self).wf(),
        ensures
            final(self).wf(),
            final(self).fn_hooks@ == old(self).fn_hooks@,
            hook_step(vis_state(*old(self)), fh, detail, vis_state(*final(self))),
    {
        let dir = fh.direction();
        let target_y = layer_center_y(fh.layer());
        let phase = PacketPhase { hook: fh, target_y };
        let is_flow_start = match fh {
            FunctionHook::ReceiveEthPayload | FunctionHook::SendTcpPacket | FunctionHook::SendUdpPacket
            | FunctionHook::SendArpPacket => true,
            _ => false,
        };
        if is_flow_start {
            let (x_base, slot) = match dir {
                PacketDirection::Rx => {
                    let s = self.rx_slot;
                    self.rx_slot = (self.rx_slot + 1) % 4;
                    (RX_LANE_X, s)
                },
                PacketDirection::Tx => {
                    let s = self.tx_slot;
                    self.tx_slot = (self.tx_slot + 1) % 4;
                    (TX_LANE_X, s)
                },
            };
            let x = x_base + slot * 20;
            let start_y = match dir {
                PacketDirection::Rx => 0,
                PacketDirection::Tx => target_y,
            };
            let mut phases: Vec<PacketPhase> = Vec::new();
            phases.push(phase);
            let ghost before = self.animated_packets@;
            self.animated_packets.push(
                AnimatedPacket {
                    direction: dir,
                    x,
                    y: start_y,
                    phases,
                    current_phase: 0,
                    pause_remaining: if dir == PacketDirection::Tx {
                        PAUSE_FRAMES
                    } else {
                        0
                    },
                    age: 0,
                    done: false,
                    flow_complete: false,
                },
            );
            if self.animated_packets.len() > MAX_ANIMATED_PACKETS {
                self.animated_packets.remove(0);
                assert(self.animated_packets@.drop_last() =~= before.drop_first());
            } else {
                assert(self.animated_packets@.drop_last() =~= before);
            }
        } else {
            let mut n = self.animated_packets.len();
            let mut found: Option<usize> = None;
            while n > 0 && found.is_none()
                invariant
                    n <= self.animated_packets@.len(),
                    found is None ==> open_flow(self.animated_packets@, dir, self.animated_packets@.len() as int)
                        == open_flow(self.animated_packets@, dir, n as int),
                    found matches Some(k) ==> open_flow(self.animated_packets@, dir, self.animated_packets@.len() as int)
                        == Some(k as int) && k < self.animated_packets@.len(),
                decreases n, if found is None { 1int } else { 0int },
            {
                let p = &self.animated_packets[n - 1];
                if p.direction == dir && !p.flow_complete && !p.done {
                    found = Some(n - 1);
                } else {
                    n = n - 1;
                }
            }
            match found {
                Some(k) => {
                    let ghost before = self.animated_packets@;
                    proof {
                        lemma_open_flow(before, dir, before.len() as int);
                    }
                    let mut pkt = self.animated_packets.remove(k);
                    pkt.phases.push(phase);
                    if fh == FunctionHook::SendEthPayload {
                        pkt.flow_complete = true;
                    }
                    self.animated_packets.insert(k, pkt);
                    proof {
                        assert forall|j: int| 0 <= j < self.animated_packets@.len() && j != k implies self.animated_packets@[j]
                            == before[j] by {
                        }
                        let q = self.animated_packets@[k as int];
                        assert(packet_ok(before[k as int]));
                        assert forall|m: int| 0 <= m < q.phases@.len() implies #[trigger] q.phases@[m].target_y <= 250 by {
                            if m < before[k as int].phases@.len() {
                                assert(before[k as int].phases@[m].target_y <= 250);
                            }
                        }
                        assert(packet_ok(q));
                        assert forall|j: int| 0 <= j < self.animated_packets@.len() implies #[trigger] packet_ok(
                            self.animated_packets@[j],
                        ) by {
                            if j != k {
                                assert(packet_ok(before[j]));
                            }
                        }
                    }
                },
                None => {},
            }
        }
        let ghost logs = self.log_entries@.push(LogEntry { direction: dir, hook: fh, detail });
        self.log_entries.push(LogEntry { direction: dir, hook: fh, detail });
        if self.log_entries.len() > MAX_LOG_ENTRIES {
            self.log_entries.remove(0);
            assert(self.log_entries@ =~= logs.drop_first());
        }
    }

    /// Shows every queued report, in order, and empties the queue.
    pub fn process_hooks(&mut self)
        requires
            old(self).wf(),
        ensures
            final(self).wf(),
            final(self).fn_hooks@.len() == 0,
            exists|st: Seq<VisState>|
                #![trigger hooks_fold(st, old(self).fn_hooks@)]
                hooks_fold(st, old(self).fn_hooks@) && st[0] == vis_state(*old(self)) && st.last() == vis_state(
                    *final(self),
                ),
    {
        let ghost all = self.fn_hooks@;
        let mut hooks: Vec<(FunctionHook, String)> = Vec::new();
        core::mem::swap(&mut hooks, &mut self.fn_hooks);
        let ghost mut st: Seq<VisState> = seq![vis_state(*self)];
        while hooks.len() > 0
            invariant
                self.wf(),
                self.fn_hooks@.len() == 0,
                hooks@.len() <= all.len(),
                hooks@ == all.skip(all.len() - hooks@.len()),
                hooks_fold(st, all.take(all.len() - hooks@.len())),
                st[0] == vis_state(*old(self)),
                st.last() == vis_state(*self),
            decreases hooks.len(),
        {
            let ghost done_n = all.len() - hooks@.len();
            let ghost prev = st;
            let (fh, detail) = hooks.remove(0);
            proof {
                assert(all[done_n] == (fh, detail));
            }
            self.process_hook(fh, detail);
            proof {
                st = prev.push(vis_state(*self));
                assert(hooks@ =~= all.skip(all.len() - hooks@.len()));
                let pre = all.take(done_n);
                let post = all.take(done_n + 1);
                assert forall|k: int| 0 <= k < post.len() implies #[trigger] hook_step(st[k], post[k].0, post[k].1, st[k + 1]) by {
                    if k < done_n {
                        assert(post[k] == pre[k]);
                        assert(hook_step(prev[k], pre[k].0, pre[k].1, prev[k + 1]));
                    }
                }
            }
        }
        proof {
            assert(all.take(all.len() as int) =~= all);
        }
    }

    /// Moves every packet one redraw on, then drops the packets finished
    /// for 30 redraws.
    #[verifier::loop_isolation(false)]
    pub fn update_animation(&mut self)
        requires
            old(self).wf(),
        ensures
            final(self).wf(),
            final(self).fn_hooks@ == old(self).fn_hooks@,
            final(self).log_entries@ == old(self).log_entries@,
            final(self).rx_slot == old(self).rx_slot,
            final(self).tx_slot == old(self).tx_slot,
            exists|mid: Seq<AnimatedPacket>|
                #![trigger kept_of(mid)]
                mid.len() == old(self).animated_packets@.len() && (forall|k: int|
                    0 <= k < mid.len() ==> stepped(#[trigger] old(self).animated_packets@[k], mid[k]))
                    && final(self).animated_packets@ == kept_of(mid),
    {
        assert forall|k: int| 0 <= k < self.animated_packets@.len() implies #[trigger] settled(self.animated_packets@[k]) by {
            assert(packet_ok(self.animated_packets@[k]));
        }
        let mut i: usize = 0;
        while i < self.animated_packets.len()
            invariant
                i <= self.animated_packets@.len(),
                self.animated_packets@.len() == old(self).animated_packets@.len(),
                forall|k: int| 0 <= k < i ==> stepped(#[trigger] old(self).animated_packets@[k], self.animated_packets@[k]),
                forall|k: int| i <= k < self.animated_packets@.len() ==> self.animated_packets@[k] == old(self).animated_packets@[k],
                forall|k: int| 0 <= k < self.animated_packets@.len() ==> #[trigger] settled(self.animated_packets@[k]),
                forall|k: int| 0 <= k < old(self).animated_packets@.len() ==> #[trigger] packet_ok(old(self).animated_packets@[k]),
                self.fn_hooks@ == old(self).fn_hooks@,
                self.log_entries@ == old(self).log_entries@,
                self.rx_slot == old(self).rx_slot,
                self.tx_slot == old(self).tx_slot,
            decreases self.animated_packets@.len() - i,
        {
            let ghost before = self.animated_packets@;
            let mut pkt = self.animated_packets.remove(i);
            step_packet(&mut pkt);
            self.animated_packets.insert(i, pkt);
            proof {
                assert forall|k: int| 0 <= k < self.animated_packets@.len() && k != i implies self.animated_packets@[k]
                    == before[k] by {}
            }
            i = i + 1;
        }
        let ghost mid = self.animated_packets@;
        let mut rest: Vec<AnimatedPacket> = Vec::new();
        core::mem::swap(&mut rest, &mut self.animated_packets);
        let ghost total = rest@.len();
        while rest.len() > 0
            invariant
                mid.len() == total,
                rest@ == mid.skip(total - rest@.len()),
                self.animated_packets@ == kept_of(mid.take(total - rest@.len())),
                self.animated_packets@.len() <= total - rest@.len(),
                total <= 32,
                forall|k: int| 0 <= k < mid.len() ==> #[trigger] settled(mid[k]),
                forall|k: int| 0 <= k < self.animated_packets@.len() ==> #[trigger] packet_ok(self.animated_packets@[k]),
                self.fn_hooks@ == old(self).fn_hooks@,
                self.log_entries@ == old(self).log_entries@,
                self.rx_slot == old(self).rx_slot,
                self.tx_slot == old(self).tx_slot,
                self.log_entries@.len() <= 8,
                self.rx_slot < 4,
                self.tx_slot < 4,
            decreases rest.len(),
        {
            let ghost done_n = total - rest@.len();
            let p = rest.remove(0);
            proof {
                assert(mid.take(done_n + 1).drop_last() =~= mid.take(done_n));
                assert(mid.take(done_n + 1).last() == p);
                assert(mid[done_n] == p);
                assert(settled(mid[done_n]));
                assert(rest@ =~= mid.skip(total - rest@.len()));
                lemma_kept_len(mid.take(done_n));
            }
            if !p.done || p.age < FADE_FRAMES {
                self.animated_packets.push(p);
            }
        }
        proof {
            assert(mid.take(total as int) =~= mid);
        }
    }
}

proof fn lemma_open_flow(s: Seq<AnimatedPacket>, d: PacketDirection, n: int)
    requires
        n <= s.len(),
    ensures
        open_flow(s, d, n) matches Some(k) ==> 0 <= k < n && s[k].direction == d && !s[k].flow_complete
            && !s[k].done,
    decreases n,
{
    if n > 0 {
        lemma_open_flow(s, d, n - 1);
    }
}

proof fn lemma_kept_len(s: Seq<AnimatedPacket>)
    ensures
        kept_of(s).len() <= s.len(),
        forall|k: int| 0 <= k < kept_of(s).len() ==> s.contains(#[trigger] kept_of(s)[k]),
    decreases s.len(),
{
    if s.len() > 0 {
        lemma_kept_len(s.drop_last());
        assert forall|k: int| 0 <= k < kept_of(s).len() implies s.contains(#[trigger] kept_of(s)[k]) by {
            if k < kept_of(s.drop_last()).len() {
                let x = kept_of(s.drop_last())[k];
                assert(s.drop_last().contains(x));
                let j = choose|j: int| 0 <= j < s.drop_last().len() && s.drop_last()[j] == x;
                assert(s[j] == x);
            } else {
                assert(s[s.len() - 1] == s.last());
            }
        }
    }
}

/// Moves one packet one redraw on.
pub fn step_packet(p: &mut AnimatedPacket)
    requires
        packet_ok(*old(p)),
    ensures
        settled(*final(p)),
        stepped(*old(p), *final(p)),
{
    if p.done {
        p.age = p.age + 1;
        return;
    }
    if p.phases.len() == 0 {
        return;
    }
    let target = p.phases[p.current_phase].target_y;
    if p.y != target {
        if p.y < target {
            p.y = if p.y + ANIM_SPEED < target {
                p.y + ANIM_SPEED
            } else {
                target
            };
        } else {
            p.y = p.y.saturating_sub(ANIM_SPEED);
            if p.y < target {
                p.y = target;
            }
        }
        if p.y == target {
            p.pause_remaining = PAUSE_FRAMES;
        }
        return;
    }
    if p.pause_remaining > 0 {
        p.pause_remaining = p.pause_remaining - 1;
        return;
    }
    if p.current_phase + 1 < p.phases.len() {
        p.current_phase = p.current_phase + 1;
    } else {
        p.done = true;
    }
}

} // verus!
