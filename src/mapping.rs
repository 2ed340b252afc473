//! The aggregation table: the latest intensity and the active flag of every
//! dot, written from inbound control messages and read, once per tick, into
//! an effect for the device.
use crate::level::{
    round_to_single, significand_of, is_positive, max_level, pow2_u64, scaled, INFINITY_BITS, MAX_LEVEL, ONE_BITS,
};
use crate::registry::{
    device_id, get_dot_name_compact_index_map, lemma_dot_names_unique, resolves_to,
    DotNameIndexMap, NUM_DOTS, NUM_SHAKES,
};
use crate::true_gear_message::{
    ActionType, Effect, EffectView, IntensityMode, Track, TrackView,
};
use vstd::arithmetic::power2::{
    lemma2_to64, lemma2_to64_rest, lemma_pow2_pos, lemma_pow2_strictly_increases, pow2,
};
use vstd::prelude::*;

verus! {

/// What happens to the table after each build.
#[derive(Debug, Clone, Copy, PartialEq, Eq, Structural)]
pub enum FeedbackMode {
    /// Every activation is consumed by the next build: the table is cleared.
    Once,
    /// The table is kept; a dot stays active until a message sets it to zero.
    Continuous,
}

/// An argument of an inbound message, as far as the table reads it.
#[derive(Debug, Clone, Copy, PartialEq, Eq, Structural)]
pub enum InboundArg {
    /// A single-precision number, as its bit pattern.
    Float(u32),
    Bool(bool),
    /// Any other kind of argument.
    Other,
}

/// A decoded control message: its address and its arguments.
#[derive(Debug)]
pub struct InboundMessage {
    pub addr: String,
    pub args: Vec<InboundArg>,
}

/// A decoded packet: one message, or a bundle of packets in order.
#[derive(Debug)]
pub enum InboundPacket {
    Message(InboundMessage),
    Bundle(PacketList),
}

/// The packets of a bundle, first to last.
#[derive(Debug)]
pub enum PacketList {
    End,
    Item(Box<InboundPacket>, Box<PacketList>),
}

/// The messages of a list of packets, depth-first, in order.
pub open spec fn list_leaves(l: PacketList) -> Seq<InboundMessage>
    decreases l,
{
    match l {
        PacketList::End => seq![],
        PacketList::Item(head, tail) => {
            let first = match *head {
                InboundPacket::Message(m) => seq![m],
                InboundPacket::Bundle(inner) => list_leaves(inner),
            };
            first + list_leaves(*tail)
        },
    }
}

/// The messages of a packet, depth-first, in order.
pub open spec fn packet_leaves(p: InboundPacket) -> Seq<InboundMessage> {
    match p {
        InboundPacket::Message(m) => seq![m],
        InboundPacket::Bundle(l) => list_leaves(l),
    }
}

/// Where the last segment of `s[0..n]` starts: one past the last `/`, or 0.
pub open spec fn segment_start(s: Seq<char>, n: int) -> int
    decreases n,
{
    if n <= 0 {
        0
    } else if s[n - 1] == '/' {
        n
    } else {
        segment_start(s, n - 1)
    }
}

/// The channel key of an address: its last `/`-separated segment.
pub open spec fn channel_key(addr: Seq<char>) -> Seq<char> {
    addr.subrange(segment_start(addr, addr.len() as int), addr.len() as int)
}

/// The intensity a message carries in its first argument: a number as it is,
/// `true` as 1.0 and `false` as 0.0; nothing for other or missing arguments.
pub open spec fn intensity_of(m: InboundMessage) -> Option<u32> {
    if m.args@.len() == 0 {
        None
    } else {
        match m.args@[0] {
            InboundArg::Float(bits) => Some(bits),
            InboundArg::Bool(b) => Some(
                if b {
                    ONE_BITS
                } else {
                    0
                },
            ),
            InboundArg::Other => None,
        }
    }
}

/// The table as mathematical values: one intensity and one flag per dot.
pub struct TableView {
    pub intensities: Seq<u32>,
    pub active: Seq<bool>,
}

/// The table with every intensity zero and every dot inactive.
pub open spec fn blank_table() -> TableView {
    TableView {
        intensities: Seq::new(NUM_DOTS as nat, |i: int| 0u32),
        active: Seq::new(NUM_DOTS as nat, |i: int| false),
    }
}

/// The dot that a message addresses, if its key names one.
pub open spec fn target_of(m: InboundMessage) -> Option<int> {
    if exists|i: int| resolves_to(channel_key(m.addr@), i) {
        Some(choose|i: int| resolves_to(channel_key(m.addr@), i))
    } else {
        None
    }
}

/// The table after one message: when the message names a dot and carries an
/// intensity, that dot takes the intensity and is active exactly when it is
/// greater than zero; otherwise nothing changes.
pub open spec fn apply_message(t: TableView, m: InboundMessage) -> TableView {
    match (target_of(m), intensity_of(m)) {
        (Some(i), Some(v)) => TableView {
            intensities: t.intensities.update(i, v),
            active: t.active.update(i, is_positive(v)),
        },
        _ => t,
    }
}

/// The table after the messages `ms`, first to last.
pub open spec fn apply_all(t: TableView, ms: Seq<InboundMessage>) -> TableView
    decreases ms.len(),
{
    if ms.len() == 0 {
        t
    } else {
        apply_all(apply_message(t, ms[0]), ms.subrange(1, ms.len() as int))
    }
}

/// Applying two runs of messages is applying their concatenation.
pub proof fn lemma_apply_all_concat(t: TableView, a: Seq<InboundMessage>, b: Seq<InboundMessage>)
    ensures
        apply_all(t, a + b) == apply_all(apply_all(t, a), b),
    decreases a.len(),
{
    if a.len() == 0 {
        assert(a + b =~= b);
    } else {
        assert((a + b)[0] == a[0]);
        assert((a + b).subrange(1, (a + b).len() as int) =~= a.subrange(1, a.len() as int) + b);
        lemma_apply_all_concat(apply_message(t, a[0]), a.subrange(1, a.len() as int), b);
    }
}

proof fn lemma_apply_one(t: TableView, m: InboundMessage)
    ensures
        apply_all(t, seq![m]) == apply_message(t, m),
{
    let ms = seq![m];
    assert(ms.subrange(1, 1) =~= Seq::<InboundMessage>::empty());
    assert(apply_all(apply_message(t, m), Seq::<InboundMessage>::empty()) == apply_message(t, m));
}

/// The device ids of the active dots among `lo..hi`, in ascending index order.
pub open spec fn active_ids(t: TableView, lo: int, hi: int) -> Seq<u8>
    decreases hi - lo,
{
    if hi <= lo {
        seq![]
    } else {
        active_ids(t, lo, hi - 1) + if t.active[hi - 1] {
            seq![device_id(hi - 1) as u8]
        } else {
            seq![]
        }
    }
}

/// The name and uuid of every effect built from the table.
pub open spec fn effect_name() -> Seq<char> {
    seq!['V', 'R', 'C', 'h', 'a', 't', 'M', 's', 'g']
}

/// The track for the dots `lo..hi`: a constant intensity, `gain` scaled by
/// the largest intensity of those dots, on the active ones among them.
pub open spec fn track_of(
    t: TableView,
    action: ActionType,
    gain: u16,
    lo: int,
    hi: int,
    interval: u8,
) -> TrackView {
    let level = scaled(gain as int, max_level(t.intensities.subrange(lo, hi))) as u16;
    TrackView {
        start_time: 0,
        end_time: 150,
        stop_name: seq![],
        start_intensity: level,
        end_intensity: level,
        intensity_mode: IntensityMode::Const,
        action_type: action,
        once: false,
        interval: interval,
        index: active_ids(t, lo, hi),
    }
}

pub open spec fn shake_track(t: TableView, gain: u16) -> TrackView {
    track_of(t, ActionType::Shake, gain, 0, NUM_SHAKES as int, 0)
}

pub open spec fn electrical_track(t: TableView, gain: u16, interval: u8) -> TrackView {
    track_of(t, ActionType::Electrical, gain, NUM_SHAKES as int, NUM_DOTS as int, interval)
}

/// The shake track and then the electrical track, each only when it names
/// at least one dot.
pub open spec fn effect_tracks(
    t: TableView,
    shake_gain: u16,
    electrical_gain: u16,
    interval: u8,
) -> Seq<TrackView> {
    let s = shake_track(t, shake_gain);
    let e = electrical_track(t, electrical_gain, interval);
    (if s.index.len() > 0 {
        seq![s]
    } else {
        seq![]
    }) + (if e.index.len() > 0 {
        seq![e]
    } else {
        seq![]
    })
}

/// The effect that the table `t` calls for, if any track names a dot.
pub open spec fn effect_of(
    t: TableView,
    shake_gain: u16,
    electrical_gain: u16,
    interval: u8,
) -> Option<EffectView> {
    let tracks = effect_tracks(t, shake_gain, electrical_gain, interval);
    if tracks.len() == 0 {
        None
    } else {
        Some(
            EffectView {
                name: effect_name(),
                uuid: effect_name(),
                keep: false,
                priority: 0,
                tracks: tracks,
            },
        )
    }
}

/// The table after a build under `mode`.
pub open spec fn table_after_build(mode: FeedbackMode, t: TableView) -> TableView {
    match mode {
        FeedbackMode::Continuous => t,
        FeedbackMode::Once => blank_table(),
    }
}

/// The shared state between the inbound side and the periodic builder.
pub struct ProtocalMapper {
    dot_intensities: Vec<u32>,
    dot_active_states: Vec<bool>,
    dot_name_compact_index_map: DotNameIndexMap,
    feedback_mode: FeedbackMode,
}

impl View for ProtocalMapper {
    type V = TableView;

    closed spec fn view(&self) -> TableView {
        TableView { intensities: self.dot_intensities@, active: self.dot_active_states@ }
    }
}

fn is_positive_bits(v: u32) -> (r: bool)
    ensures
        r == is_positive(v),
{
    v / 0x8000_0000 == 0 && v != 0 && v <= INFINITY_BITS
}

/// The last `/`-separated segment of `addr`.
fn channel_key_of(addr: &str) -> (r: &str)
    ensures
        r@ == channel_key(addr@),
{
    let len = addr.unicode_len();
    let mut n: usize = len;
    while n > 0 && addr.get_char(n - 1) != '/'
        invariant
            n <= len,
            len == addr@.len(),
            segment_start(addr@, len as int) == segment_start(addr@, n as int),
        decreases n,
    {
        n = n - 1;
    }
    addr.substring_char(n, len)
}

impl ProtocalMapper {
    /// The reset policy the table was made with.
    pub closed spec fn mode(&self) -> FeedbackMode {
        self.feedback_mode
    }

    /// The reset policy the table was made with.
    pub fn feedback_mode(&self) -> (r: FeedbackMode)
        ensures
            r == self.mode(),
    {
        self.feedback_mode
    }

    pub closed spec fn wf(&self) -> bool {
        &&& self.dot_intensities@.len() == NUM_DOTS
        &&& self.dot_active_states@.len() == NUM_DOTS
    }

    fn blank_columns() -> (r: (Vec<u32>, Vec<bool>))
        ensures
            r.0@ == blank_table().intensities,
            r.1@ == blank_table().active,
    {
        let mut dot_intensities: Vec<u32> = Vec::new();
        let mut dot_active_states: Vec<bool> = Vec::new();
        let mut i: usize = 0;
        while i < NUM_DOTS
            invariant
                i <= NUM_DOTS,
                dot_intensities@ == Seq::new(i as nat, |j: int| 0u32),
                dot_active_states@ == Seq::new(i as nat, |j: int| false),
            decreases NUM_DOTS - i,
        {
            dot_intensities.push(0);
            dot_active_states.push(false);
            i = i + 1;
            assert(dot_intensities@ =~= Seq::new(i as nat, |j: int| 0u32));
            assert(dot_active_states@ =~= Seq::new(i as nat, |j: int| false));
        }
        (dot_intensities, dot_active_states)
    }

    /// A valid table holds one intensity and one flag for every dot.
    pub proof fn lemma_view_lengths(&self)
        requires
            self.wf(),
        ensures
            self@.intensities.len() == NUM_DOTS,
            self@.active.len() == NUM_DOTS,
    {
    }

    /// An empty table with the given reset policy.
    pub fn new(feedback_mode: FeedbackMode) -> (r: Self)
        ensures
            r.wf(),
            r@ == blank_table(),
            r.mode() == feedback_mode,
    {
        let (dot_intensities, dot_active_states) = Self::blank_columns();
        ProtocalMapper {
            dot_intensities,
            dot_active_states,
            dot_name_compact_index_map: get_dot_name_compact_index_map(),
            feedback_mode,
        }
    }

    /// The intensity that `msg` carries, see `intensity_of`.
    pub fn extract_intensity(msg: &InboundMessage) -> (r: Option<u32>)
        ensures
            r == intensity_of(*msg),
    {
        if msg.args.len() == 0 {
            None
        } else {
            match msg.args[0] {
                InboundArg::Float(bits) => Some(bits),
                InboundArg::Bool(b) => Some(
                    if b {
                        ONE_BITS
                    } else {
                        0
                    },
                ),
                InboundArg::Other => None,
            }
        }
    }

    /// The latest intensity of dot `k`.
    pub fn intensity(&self, k: usize) -> (r: u32)
        requires
            self.wf(),
            k < NUM_DOTS,
        ensures
            r == self@.intensities[k as int],
    {
        self.dot_intensities[k]
    }

    /// Whether dot `k` is active.
    pub fn is_active(&self, k: usize) -> (r: bool)
        requires
            self.wf(),
            k < NUM_DOTS,
        ensures
            r == self@.active[k as int],
    {
        self.dot_active_states[k]
    }

    /// Applies one message to the table, see `apply_message`.
    pub fn consume_osc_message(&mut self, msg: &InboundMessage)
        requires
            old(self).wf(),
        ensures
            final(self).wf(),
            final(self)@ == apply_message(old(self)@, *msg),
            final(self).mode() == old(self).mode(),
    {
        let key = channel_key_of(msg.addr.as_str());
        let slot = match self.dot_name_compact_index_map.get(key) {
            Some(i) => i,
            None => {
                return ;
            },
        };
        proof {
            let j = choose|j: int| resolves_to(channel_key(msg.addr@), j);
            lemma_dot_names_unique(j, slot as int);
        }
        let intensity = match Self::extract_intensity(msg) {
            Some(v) => v,
            None => {
                return ;
            },
        };
        self.dot_intensities.set(slot, intensity);
        let active = is_positive_bits(intensity);
        self.dot_active_states.set(slot, active);
    }

    /// Applies every message of `packet`, depth-first and in order.
    pub fn consume_osc_packet(&mut self, packet: &InboundPacket)
        requires
            old(self).wf(),
        ensures
            final(self).wf(),
            final(self)@ == apply_all(old(self)@, packet_leaves(*packet)),
            final(self).mode() == old(self).mode(),
    {
        match packet {
            InboundPacket::Message(msg) => {
                self.consume_osc_message(msg);
                proof {
                    lemma_apply_one(old(self)@, *msg);
                }
            },
            InboundPacket::Bundle(list) => self.consume_packet_list(list),
        }
    }

    fn consume_packet_list(&mut self, list: &PacketList)
        requires
            old(self).wf(),
        ensures
            final(self).wf(),
            final(self)@ == apply_all(old(self)@, list_leaves(*list)),
            final(self).mode() == old(self).mode(),
        decreases list,
    {
        match list {
            PacketList::End => {
                assert(list_leaves(*list) =~= Seq::<InboundMessage>::empty());
            },
            PacketList::Item(head, tail) => {
                let ghost start = self@;
                let ghost first = packet_leaves(**head);
                match &**head {
                    InboundPacket::Message(msg) => {
                        self.consume_osc_message(msg);
                        proof {
                            lemma_apply_one(start, *msg);
                        }
                    },
                    InboundPacket::Bundle(inner) => self.consume_packet_list(inner),
                }
                self.consume_packet_list(tail);
                proof {
                    lemma_apply_all_concat(start, first, list_leaves(**tail));
                }
            },
        }
    }

    /// `base` scaled by the number `factor`, see `scaled`.
    pub fn scale_intensity(base: u16, factor: u32) -> (r: u16)
        ensures
            r as int == scaled(base as int, factor),
    {
        if !is_positive_bits(factor) {
            return 0;
        }
        let exponent: u32 = (factor / 0x80_0000) % 256;
        if exponent == 255 {
            return if base == 0 {
                0
            } else {
                MAX_LEVEL
            };
        }
        let fraction: u32 = factor % 0x80_0000;
        let significand: u64 = if exponent == 0 {
            fraction as u64
        } else {
            fraction as u64 + 0x80_0000
        };
        assert(significand < 0x100_0000);
        assert((base as int) * (significand as int) < 0x100_0000_0000) by (nonlinear_arith)
            requires
                significand < 0x100_0000,
                base < 0x1_0000,
        ;
        let exact: u64 = base as u64 * significand;
        assert(exact as int == base as int * significand_of(factor));
        let n: u64 = round_to_single(exact);
        if exponent >= 150 {
            let e: u32 = exponent - 150;
            if n == 0 {
                assert(n * pow2(e as nat) == 0) by (nonlinear_arith)
                    requires
                        n == 0,
                ;
                return 0;
            }
            if e >= 8 {
                proof {
                    lemma2_to64();
                    lemma2_to64_rest();
                    if e > 8 {
                        lemma_pow2_strictly_increases(8, e as nat);
                    }
                    assert(n * pow2(e as nat) >= pow2(e as nat)) by (nonlinear_arith)
                        requires
                            n >= 1,
                    ;
                }
                return MAX_LEVEL;
            }
            let p: u64 = pow2_u64(e);
            proof {
                lemma2_to64();
                    lemma2_to64_rest();
                if e < 7 {
                    lemma_pow2_strictly_increases(e as nat, 7);
                }
                assert(n * p <= 0x200_0000_0000 * 128) by (nonlinear_arith)
                    requires
                        n < 0x200_0000_0000,
                        p <= 128,
                ;
            }
            let v: u64 = n * p;
            if v > 150 {
                MAX_LEVEL
            } else {
                v as u16
            }
        } else {
            let k: u32 = if exponent == 0 {
                149
            } else {
                150 - exponent
            };
            if k >= 42 {
                proof {
                    lemma2_to64();
                    lemma2_to64_rest();
                    let km: nat = (k - 1) as nat;
                    let h = pow2(km);
                    if km > 41 {
                        lemma_pow2_strictly_increases(41, km);
                    }
                    vstd::arithmetic::power2::lemma_pow2_unfold(k as nat);
                    assert(pow2(k as nat) == 2 * h);
                    assert(h >= 0x200_0000_0000);
                    assert(0 <= n + h < pow2(k as nat));
                    vstd::arithmetic::div_mod::lemma_basic_div((n + h) as int, pow2(k as nat) as int);
                }
                return 0;
            }
            let p: u64 = pow2_u64(k);
            proof {
                lemma2_to64();
                    lemma2_to64_rest();
                vstd::arithmetic::power2::lemma_pow2_unfold(k as nat);
                if k < 41 {
                    lemma_pow2_strictly_increases(k as nat, 41);
                }
                lemma_pow2_pos(k as nat);
            }
            let v: u64 = (n + p / 2) / p;
            if v > 150 {
                MAX_LEVEL
            } else {
                v as u16
            }
        }
    }

    fn max_intensity(&self, lo: usize, hi: usize) -> (r: u32)
        requires
            self.wf(),
            lo <= hi <= NUM_DOTS,
        ensures
            r == max_level(self@.intensities.subrange(lo as int, hi as int)),
    {
        let mut m: u32 = 0;
        let mut i: usize = lo;
        while i < hi
            invariant
                lo <= i <= hi <= NUM_DOTS,
                self.wf(),
                m == max_level(self@.intensities.subrange(lo as int, i as int)),
            decreases hi - i,
        {
            let v = self.dot_intensities[i];
            let x = if is_positive_bits(v) {
                v
            } else {
                0
            };
            proof {
                assert(self@.intensities.subrange(lo as int, i + 1).drop_last()
                    =~= self@.intensities.subrange(lo as int, i as int));
            }
            if x > m {
                m = x;
            }
            i = i + 1;
        }
        m
    }

    fn active_device_ids(&self, lo: usize, hi: usize) -> (r: Vec<u8>)
        requires
            self.wf(),
            lo <= hi <= NUM_DOTS,
        ensures
            r@ == active_ids(self@, lo as int, hi as int),
    {
        let mut ids: Vec<u8> = Vec::new();
        let mut i: usize = lo;
        while i < hi
            invariant
                lo <= i <= hi <= NUM_DOTS,
                self.wf(),
                ids@ == active_ids(self@, lo as int, i as int),
            decreases hi - i,
        {
            if self.dot_active_states[i] {
                ids.push(self.dot_name_compact_index_map.device_id(i));
            }
            assert(ids@ =~= active_ids(self@, lo as int, i + 1));
            i = i + 1;
        }
        ids
    }

    fn make_track(&self, action: ActionType, gain: u16, lo: usize, hi: usize, interval: u8) -> (r:
        Track)
        requires
            self.wf(),
            lo <= hi <= NUM_DOTS,
        ensures
            r@ == track_of(self@, action, gain, lo as int, hi as int, interval),
    {
        let level = Self::scale_intensity(gain, self.max_intensity(lo, hi));
        let stop_name = String::new();
        Track {
            start_time: 0,
            end_time: 150,
            stop_name,
            start_intensity: level,
            end_intensity: level,
            intensity_mode: IntensityMode::Const,
            action_type: action,
            once: false,
            interval,
            index: self.active_device_ids(lo, hi),
        }
    }

    /// Reads the table into an effect, then applies the reset policy: the
    /// effect of `effect_of`, and `None` when no dot is active.
    pub fn build_effect(
        &mut self,
        shake_intensity: u16,
        electrical_intensity: u16,
        electrical_interval: u8,
    ) -> (r: Option<Effect>)
        requires
            old(self).wf(),
        ensures
            final(self).wf(),
            final(self).mode() == old(self).mode(),
            final(self)@ == table_after_build(old(self).mode(), old(self)@),
            match r {
                Some(e) => effect_of(
                    old(self)@,
                    shake_intensity,
                    electrical_intensity,
                    electrical_interval,
                ) == Some(e@),
                None => effect_of(
                    old(self)@,
                    shake_intensity,
                    electrical_intensity,
                    electrical_interval,
                ) is None,
            },
    {
        let shake_track = self.make_track(ActionType::Shake, shake_intensity, 0, NUM_SHAKES, 0);
        let electrical_track = self.make_track(
            ActionType::Electrical,
            electrical_intensity,
            NUM_SHAKES,
            NUM_DOTS,
            electrical_interval,
        );
        let ghost expected = effect_tracks(
            self@,
            shake_intensity,
            electrical_intensity,
            electrical_interval,
        );
        let mut tracks: Vec<Track> = Vec::new();
        if shake_track.index.len() > 0 {
            tracks.push(shake_track);
        }
        if electrical_track.index.len() > 0 {
            tracks.push(electrical_track);
        }
        assert(tracks@.map_values(|t: Track| t@) =~= expected);
        if let FeedbackMode::Once = self.feedback_mode {
            let (intensities, active_states) = Self::blank_columns();
            self.dot_intensities = intensities;
            self.dot_active_states = active_states;
        }
        if tracks.len() > 0 {
            let uuid = String::from_str("VRChatMsg");
            let name = String::from_str("VRChatMsg");
            proof {
                reveal_strlit("VRChatMsg");
                assert(uuid@ =~= effect_name());
            }
            Some(Effect { name, uuid, keep: false, priority: 0, tracks })
        } else {
            None
        }
    }
}

impl Default for ProtocalMapper {
    /// An empty table that keeps its state between builds.
    fn default() -> (r: Self)
        ensures
            r.wf(),
            r@ == blank_table(),
            r.mode() == FeedbackMode::Continuous,
    {
        Self::new(FeedbackMode::Continuous)
    }
}

proof fn lemma_active_ids_none(t: TableView, lo: int, hi: int)
    requires
        forall|i: int| lo <= i < hi ==> !t.active[i],
    ensures
        active_ids(t, lo, hi) == Seq::<u8>::empty(),
    decreases hi - lo,
{
    if hi > lo {
        lemma_active_ids_none(t, lo, hi - 1);
        assert(active_ids(t, lo, hi) =~= Seq::<u8>::empty());
    }
}

proof fn lemma_active_ids_single(t: TableView, lo: int, hi: int, k: int)
    requires
        lo <= k < hi,
        t.active[k],
        forall|i: int| lo <= i < hi && i != k ==> !t.active[i],
    ensures
        active_ids(t, lo, hi) == seq![device_id(k) as u8],
    decreases hi - lo,
{
    if hi - 1 == k {
        lemma_active_ids_none(t, lo, k);
        assert(active_ids(t, lo, hi) =~= seq![device_id(k) as u8]);
    } else {
        lemma_active_ids_single(t, lo, hi - 1, k);
        assert(active_ids(t, lo, hi) =~= seq![device_id(k) as u8]);
    }
}

/// A message that names a dot and carries an intensity sets that dot's
/// intensity, and makes the dot active exactly when the intensity is greater
/// than zero.
pub proof fn lemma_write_sets_active(t: TableView, m: InboundMessage, k: int, v: u32)
    requires
        resolves_to(channel_key(m.addr@), k),
        intensity_of(m) == Some(v),
        t.intensities.len() == NUM_DOTS,
        t.active.len() == NUM_DOTS,
    ensures
        apply_message(t, m).intensities[k] == v,
        apply_message(t, m).active[k] == is_positive(v),
{
    let j = choose|j: int| resolves_to(channel_key(m.addr@), j);
    lemma_dot_names_unique(j, k);
}

/// In continuous mode a build leaves the table as it was, so a second build
/// with no message in between gives the same effect as the first.
pub proof fn lemma_continuous_builds_repeat(
    t: TableView,
    shake_gain: u16,
    electrical_gain: u16,
    interval: u8,
)
    ensures
        table_after_build(FeedbackMode::Continuous, t) == t,
        effect_of(table_after_build(FeedbackMode::Continuous, t), shake_gain, electrical_gain, interval)
            == effect_of(t, shake_gain, electrical_gain, interval),
{
}

/// In once mode the build after a build, with no message in between, gives
/// no effect.
pub proof fn lemma_once_second_build_empty(
    t: TableView,
    shake_gain: u16,
    electrical_gain: u16,
    interval: u8,
)
    ensures
        effect_of(table_after_build(FeedbackMode::Once, t), shake_gain, electrical_gain, interval)
            is None,
{
    lemma_idle_table_builds_nothing(blank_table(), shake_gain, electrical_gain, interval);
}

/// A table with no active dot gives no effect.
pub proof fn lemma_idle_table_builds_nothing(
    t: TableView,
    shake_gain: u16,
    electrical_gain: u16,
    interval: u8,
)
    requires
        t.active.len() == NUM_DOTS,
        forall|i: int| 0 <= i < NUM_DOTS ==> !t.active[i],
    ensures
        effect_of(t, shake_gain, electrical_gain, interval) is None,
{
    lemma_active_ids_none(t, 0, NUM_SHAKES as int);
    lemma_active_ids_none(t, NUM_SHAKES as int, NUM_DOTS as int);
    assert(effect_tracks(t, shake_gain, electrical_gain, interval) =~= Seq::<TrackView>::empty());
}

/// A table whose one active dot `k` is a shake dot gives an effect with one
/// shake track, on that dot's device id alone.
pub proof fn lemma_single_shake_dot_effect(
    t: TableView,
    k: int,
    shake_gain: u16,
    electrical_gain: u16,
    interval: u8,
)
    requires
        t.active.len() == NUM_DOTS,
        0 <= k < NUM_SHAKES,
        t.active[k],
        forall|i: int| 0 <= i < NUM_DOTS && i != k ==> !t.active[i],
    ensures
        effect_of(t, shake_gain, electrical_gain, interval) is Some,
        effect_of(t, shake_gain, electrical_gain, interval)->Some_0.tracks.len() == 1,
        effect_of(t, shake_gain, electrical_gain, interval)->Some_0.tracks[0].action_type
            == ActionType::Shake,
        effect_of(t, shake_gain, electrical_gain, interval)->Some_0.tracks[0].index == seq![
            device_id(k) as u8,
        ],
{
    lemma_active_ids_single(t, 0, NUM_SHAKES as int, k);
    lemma_active_ids_none(t, NUM_SHAKES as int, NUM_DOTS as int);
    assert(effect_tracks(t, shake_gain, electrical_gain, interval) =~= seq![
        shake_track(t, shake_gain),
    ]);
}

} // verus!
