//! The frame reassembler: rebuilds H.264 access units from out-of-order UDP
//! fragments, keyed by frame sequence number.
//!
//! Each incoming packet first evicts slots older than two seconds, then is
//! stored in its frame's slot; duplicates change nothing, a fragment index at
//! or past the slot's total is dropped.  When the last missing fragment
//! arrives, the slot is removed and the fragments are concatenated in index
//! order into one [`EncodedFrame`].

use vstd::prelude::*;
use crate::config::VideoCodec;
use crate::dlnk::DualLinkPacket;
use crate::types::{EncodedFrame, EncodedFrameModel};

verus! {

/// Milliseconds a partial frame may wait for its missing fragments.
pub const REASSEMBLY_TIMEOUT_MS: u64 = 2000;

/// A partially received frame: one optional payload per fragment index.
pub struct PartialFrame {
    pub fragments: Vec<Option<Vec<u8>>>,
    pub received: u16,
    pub total: u16,
    pub pts_ms: u32,
    pub is_keyframe: bool,
    pub first_seen_ms: u64,
}

/// The mathematical value of a [`PartialFrame`].
pub struct SlotModel {
    pub frags: Seq<Option<Seq<u8>>>,
    pub pts_ms: u32,
    pub is_keyframe: bool,
    pub first_seen_ms: u64,
}

impl View for PartialFrame {
    type V = SlotModel;

    open spec fn view(&self) -> SlotModel {
        SlotModel {
            frags: self.fragments@.map_values(|f: Option<Vec<u8>>| match f {
                Option::Some(v) => Option::Some(v@),
                Option::None => Option::None,
            }),
            pts_ms: self.pts_ms,
            is_keyframe: self.is_keyframe,
            first_seen_ms: self.first_seen_ms,
        }
    }
}

/// The fields of a packet that the reassembler reads.
pub struct PacketModel {
    pub frame_seq: u32,
    pub frag_index: u16,
    pub frag_count: u16,
    pub pts_ms: u32,
    pub is_keyframe: bool,
    pub payload: Seq<u8>,
}

impl View for DualLinkPacket {
    type V = PacketModel;

    open spec fn view(&self) -> PacketModel {
        PacketModel {
            frame_seq: self.frame_seq,
            frag_index: self.frag_index,
            frag_count: self.frag_count,
            pts_ms: self.pts_ms,
            is_keyframe: self.is_keyframe,
            payload: self.payload@,
        }
    }
}

/// The reassembler's slots in insertion order.
pub struct ReasmModel {
    pub slots: Seq<(u32, SlotModel)>,
}

/// How many fragment positions are filled.
pub open spec fn spec_num_filled(frags: Seq<Option<Seq<u8>>>) -> int
    decreases frags.len(),
{
    if frags.len() == 0 {
        0
    } else {
        spec_num_filled(frags.drop_last()) + if frags.last() is Some {
            1int
        } else {
            0int
        }
    }
}

pub proof fn lemma_num_filled_bounds(frags: Seq<Option<Seq<u8>>>)
    ensures
        0 <= spec_num_filled(frags) <= frags.len(),
    decreases frags.len(),
{
    if frags.len() > 0 {
        lemma_num_filled_bounds(frags.drop_last());
    }
}

/// Filling a previously empty position raises the count by one.
pub proof fn lemma_num_filled_update(frags: Seq<Option<Seq<u8>>>, i: int, v: Seq<u8>)
    requires
        0 <= i < frags.len(),
        frags[i] is None,
    ensures
        spec_num_filled(frags.update(i, Option::Some(v))) == spec_num_filled(frags) + 1,
    decreases frags.len(),
{
    let updated = frags.update(i, Option::Some(v));
    if i == frags.len() - 1 {
        assert(updated.drop_last() =~= frags.drop_last());
    } else {
        assert(updated.drop_last() =~= frags.drop_last().update(i, Option::Some(v)));
        lemma_num_filled_update(frags.drop_last(), i, v);
    }
}

/// A slot whose count equals its length has every position filled.
pub proof fn lemma_num_filled_full(frags: Seq<Option<Seq<u8>>>)
    requires
        spec_num_filled(frags) == frags.len(),
    ensures
        forall|i: int| 0 <= i < frags.len() ==> frags[i] is Some,
    decreases frags.len(),
{
    if frags.len() > 0 {
        lemma_num_filled_bounds(frags.drop_last());
        lemma_num_filled_full(frags.drop_last());
        assert forall|i: int| 0 <= i < frags.len() implies frags[i] is Some by {
            if i < frags.len() - 1 {
                assert(frags.drop_last()[i] is Some);
            }
        }
    }
}

/// The fragments of a slot concatenated in index order; empty positions
/// contribute nothing.
pub open spec fn spec_assemble(frags: Seq<Option<Seq<u8>>>) -> Seq<u8>
    decreases frags.len(),
{
    if frags.len() == 0 {
        Seq::empty()
    } else {
        spec_assemble(frags.drop_last()) + match frags.last() {
            Option::Some(p) => p,
            Option::None => Seq::empty(),
        }
    }
}

/// A slot survives eviction at `now_ms` while it is at most
/// `REASSEMBLY_TIMEOUT_MS` old.
pub open spec fn spec_keep(s: SlotModel, now_ms: u64) -> bool {
    now_ms <= s.first_seen_ms + REASSEMBLY_TIMEOUT_MS
}

/// The slots that survive eviction at `now_ms`, in order.
pub open spec fn spec_evict(slots: Seq<(u32, SlotModel)>, now_ms: u64) -> Seq<(u32, SlotModel)>
    decreases slots.len(),
{
    if slots.len() == 0 {
        Seq::empty()
    } else {
        spec_evict(slots.drop_last(), now_ms) + if spec_keep(slots.last().1, now_ms) {
            seq![slots.last()]
        } else {
            Seq::empty()
        }
    }
}

/// The position of the slot for `frame_seq`, if one exists.
pub open spec fn spec_find(slots: Seq<(u32, SlotModel)>, frame_seq: u32) -> Option<int>
    decreases slots.len(),
{
    if slots.len() == 0 {
        Option::None
    } else if slots[0].0 == frame_seq {
        Option::Some(0)
    } else {
        match spec_find(slots.drop_first(), frame_seq) {
            Option::Some(i) => Option::Some(i + 1),
            Option::None => Option::None,
        }
    }
}

/// `spec_find` returns the first matching position, and `None` only when no
/// slot matches.
pub proof fn lemma_find_char(slots: Seq<(u32, SlotModel)>, frame_seq: u32)
    ensures
        match spec_find(slots, frame_seq) {
            Option::Some(i) => {
                &&& 0 <= i < slots.len()
                &&& slots[i].0 == frame_seq
                &&& forall|k: int| 0 <= k < i ==> (#[trigger] slots[k]).0 != frame_seq
            },
            Option::None => forall|k: int|
                0 <= k < slots.len() ==> (#[trigger] slots[k]).0 != frame_seq,
        },
    decreases slots.len(),
{
    if slots.len() > 0 && slots[0].0 != frame_seq {
        let rest = slots.drop_first();
        lemma_find_char(rest, frame_seq);
        assert(forall|k: int| 0 <= k < rest.len() ==> rest[k] == slots[k + 1]);
        match spec_find(rest, frame_seq) {
            Option::Some(i) => {
                assert(slots[i + 1].0 == frame_seq);
                assert forall|k: int| 0 <= k < i + 1 implies (#[trigger] slots[k]).0
                    != frame_seq by {
                    if k > 0 {
                        assert(rest[k - 1].0 != frame_seq);
                    }
                }
            },
            Option::None => {
                assert forall|k: int| 0 <= k < slots.len() implies (#[trigger] slots[k]).0
                    != frame_seq by {
                    if k > 0 {
                        assert(rest[k - 1].0 != frame_seq);
                    }
                }
            },
        }
    }
}

/// The packet model a valid DLNK datagram parses to.
pub open spec fn spec_packet_of(buf: Seq<u8>) -> PacketModel
    recommends
        crate::dlnk::spec_is_dlnk_packet(buf),
{
    PacketModel {
        frame_seq: crate::dlnk::spec_be32(buf[4], buf[5], buf[6], buf[7]) as u32,
        frag_index: crate::dlnk::spec_be16(buf[8], buf[9]) as u16,
        frag_count: crate::dlnk::spec_be16(buf[10], buf[11]) as u16,
        pts_ms: crate::dlnk::spec_be32(buf[12], buf[13], buf[14], buf[15]) as u32,
        is_keyframe: buf[16] & 1 != 0,
        payload: buf.subrange(crate::dlnk::HEADER_SIZE as int, buf.len() as int),
    }
}

/// A position holding the key, with no earlier match, is what `spec_find`
/// returns.
pub proof fn lemma_find_from_witness(slots: Seq<(u32, SlotModel)>, frame_seq: u32, i: int)
    requires
        0 <= i < slots.len(),
        slots[i].0 == frame_seq,
        forall|k: int| 0 <= k < i ==> (#[trigger] slots[k]).0 != frame_seq,
    ensures
        spec_find(slots, frame_seq) == Option::Some(i),
    decreases slots.len(),
{
    if i > 0 {
        let rest = slots.drop_first();
        assert(forall|k: int| 0 <= k < rest.len() ==> rest[k] == slots[k + 1]);
        lemma_find_from_witness(rest, frame_seq, i - 1);
    }
}

/// No position holds the key exactly when `spec_find` returns nothing.
pub proof fn lemma_find_none(slots: Seq<(u32, SlotModel)>, frame_seq: u32)
    requires
        forall|k: int| 0 <= k < slots.len() ==> (#[trigger] slots[k]).0 != frame_seq,
    ensures
        spec_find(slots, frame_seq) is None,
    decreases slots.len(),
{
    if slots.len() > 0 {
        let rest = slots.drop_first();
        assert(forall|k: int| 0 <= k < rest.len() ==> rest[k] == slots[k + 1]);
        lemma_find_none(rest, frame_seq);
    }
}

/// The slot a first fragment creates.
pub open spec fn spec_new_slot(p: PacketModel, now_ms: u64) -> SlotModel {
    SlotModel {
        frags: Seq::new(p.frag_count as nat, |i: int| Option::None),
        pts_ms: p.pts_ms,
        is_keyframe: p.is_keyframe,
        first_seen_ms: now_ms,
    }
}

/// Store a fragment in a slot: an out-of-range index or an already filled
/// position changes nothing.
pub open spec fn spec_fill(s: SlotModel, p: PacketModel) -> SlotModel {
    if p.frag_index < s.frags.len() && s.frags[p.frag_index as int] is None {
        SlotModel { frags: s.frags.update(p.frag_index as int, Option::Some(p.payload)), ..s }
    } else {
        s
    }
}

/// A slot is complete when every fragment position is filled.
pub open spec fn spec_complete(s: SlotModel) -> bool {
    spec_num_filled(s.frags) == s.frags.len()
}

/// The frame a completed slot assembles into.
pub open spec fn spec_frame_of(s: SlotModel) -> EncodedFrameModel {
    EncodedFrameModel {
        data: spec_assemble(s.frags),
        timestamp_us: (s.pts_ms * 1000) as u64,
        is_keyframe: s.is_keyframe,
        codec: VideoCodec::H264,
    }
}

/// Keys are pairwise distinct.
pub open spec fn spec_unique_keys(slots: Seq<(u32, SlotModel)>) -> bool {
    forall|i: int, j: int|
        0 <= i < j < slots.len() ==> (#[trigger] slots[i]).0 != (#[trigger] slots[j]).0
}

/// Everything that survives eviction was already there.
pub proof fn lemma_evict_membership(slots: Seq<(u32, SlotModel)>, now_ms: u64)
    ensures
        forall|e: (u32, SlotModel)|
            #[trigger] spec_evict(slots, now_ms).contains(e) ==> slots.contains(e),
    decreases slots.len(),
{
    if slots.len() > 0 {
        let pre = slots.drop_last();
        lemma_evict_membership(pre, now_ms);
        assert forall|e: (u32, SlotModel)|
            #[trigger] spec_evict(slots, now_ms).contains(e) implies slots.contains(e) by {
            if spec_evict(pre, now_ms).contains(e) {
                let k = choose|k: int|
                    0 <= k < pre.len() && pre[k] == e;
                assert(slots[k] == e);
            } else {
                assert(e == slots.last());
                assert(slots[slots.len() - 1] == e);
            }
        }
    }
}

/// Eviction keeps keys pairwise distinct.
pub proof fn lemma_evict_unique(slots: Seq<(u32, SlotModel)>, now_ms: u64)
    requires
        spec_unique_keys(slots),
    ensures
        spec_unique_keys(spec_evict(slots, now_ms)),
    decreases slots.len(),
{
    if slots.len() > 0 {
        let pre = slots.drop_last();
        assert(spec_unique_keys(pre));
        lemma_evict_unique(pre, now_ms);
        lemma_evict_membership(pre, now_ms);
        let kept = spec_evict(slots, now_ms);
        let kept_pre = spec_evict(pre, now_ms);
        if spec_keep(slots.last().1, now_ms) {
            assert forall|i: int, j: int|
                0 <= i < j < kept.len() implies (#[trigger] kept[i]).0 != (#[trigger] kept[j]).0 by {
                if j < kept_pre.len() {
                    assert(kept[i] == kept_pre[i] && kept[j] == kept_pre[j]);
                } else {
                    assert(kept[j] == slots.last());
                    assert(kept[i] == kept_pre[i]);
                    assert(kept_pre.contains(kept_pre[i]));
                    let k = choose|k: int| 0 <= k < pre.len() && pre[k] == kept_pre[i];
                    assert(slots[k] == kept_pre[i]);
                    assert(slots[k].0 != slots[slots.len() - 1].0);
                }
            }
        } else {
            assert(kept =~= kept_pre);
        }
    }
}

/// One reassembler step: evict stale slots, place the fragment, and emit the
/// frame when its slot became complete.
pub open spec fn spec_push(m: ReasmModel, p: PacketModel, now_ms: u64) -> (ReasmModel, Option<
    EncodedFrameModel,
>) {
    let kept = spec_evict(m.slots, now_ms);
    match spec_find(kept, p.frame_seq) {
        Option::Some(i) => {
            let filled = spec_fill(kept[i].1, p);
            if spec_complete(filled) {
                (ReasmModel { slots: kept.remove(i) }, Option::Some(spec_frame_of(filled)))
            } else {
                (ReasmModel { slots: kept.update(i, (p.frame_seq, filled)) }, Option::None)
            }
        },
        Option::None => {
            let filled = spec_fill(spec_new_slot(p, now_ms), p);
            if spec_complete(filled) {
                (ReasmModel { slots: kept }, Option::Some(spec_frame_of(filled)))
            } else {
                (ReasmModel { slots: kept.push((p.frame_seq, filled)) }, Option::None)
            }
        },
    }
}

/// The concatenation of a sequence of payloads in index order.
pub open spec fn spec_concat(payloads: Seq<Seq<u8>>) -> Seq<u8>
    decreases payloads.len(),
{
    if payloads.len() == 0 {
        Seq::empty()
    } else {
        spec_concat(payloads.drop_last()) + payloads.last()
    }
}

/// Fold [`spec_push`] over a sequence of packets, collecting the emitted
/// frames in order.
pub open spec fn spec_push_trace(m: ReasmModel, packets: Seq<PacketModel>, now_ms: u64) -> (
    ReasmModel,
    Seq<EncodedFrameModel>,
)
    decreases packets.len(),
{
    if packets.len() == 0 {
        (m, Seq::empty())
    } else {
        let prior = spec_push_trace(m, packets.drop_last(), now_ms);
        let step = spec_push(prior.0, packets.last(), now_ms);
        (
            step.0,
            prior.1 + match step.1 {
                Option::Some(f) => seq![f],
                Option::None => Seq::<EncodedFrameModel>::empty(),
            },
        )
    }
}

/// The packet carrying fragment `i` of a frame whose per-index payloads are
/// `payloads`.
pub open spec fn spec_fragment_packet(
    frame_seq: u32,
    pts_ms: u32,
    is_keyframe: bool,
    payloads: Seq<Seq<u8>>,
    i: int,
) -> PacketModel {
    PacketModel {
        frame_seq,
        frag_index: i as u16,
        frag_count: payloads.len() as u16,
        pts_ms,
        is_keyframe,
        payload: payloads[i],
    }
}

/// The fragment vector after the positions listed in `filled` have arrived.
pub open spec fn spec_filled_frags(payloads: Seq<Seq<u8>>, filled: Seq<int>) -> Seq<
    Option<Seq<u8>>,
> {
    Seq::new(
        payloads.len(),
        |i: int|
            if filled.contains(i) {
                Option::Some(payloads[i])
            } else {
                Option::None
            },
    )
}

/// No two positions of `order` hold the same value.
pub open spec fn spec_injective(order: Seq<int>) -> bool {
    forall|a: int, b: int| 0 <= a < b < order.len() ==> order[a] != order[b]
}

/// A delivery order for a frame of `count` fragments: each value in range,
/// no repeats, one entry per fragment.
pub open spec fn spec_delivery_order(order: Seq<int>, count: int) -> bool {
    &&& order.len() == count
    &&& forall|j: int| 0 <= j < order.len() ==> 0 <= #[trigger] order[j] < count
    &&& spec_injective(order)
}

/// After the first `k` fragments of a lossless out-of-order delivery, the
/// reassembler holds exactly one slot for the frame, with exactly those `k`
/// positions filled, and has emitted nothing.
proof fn lemma_fill_steps(
    frame_seq: u32,
    pts_ms: u32,
    is_keyframe: bool,
    payloads: Seq<Seq<u8>>,
    order: Seq<int>,
    now_ms: u64,
    k: int,
)
    requires
        1 <= payloads.len() <= 0xffff,
        spec_delivery_order(order, payloads.len() as int),
        0 <= k < payloads.len(),
    ensures
        ({
            let packets = Seq::new(
                k as nat,
                |j: int| spec_fragment_packet(frame_seq, pts_ms, is_keyframe, payloads, order[j]),
            );
            let r = spec_push_trace(ReasmModel { slots: Seq::empty() }, packets, now_ms);
            &&& r.1 == Seq::<EncodedFrameModel>::empty()
            &&& (k == 0 ==> r.0.slots == Seq::<(u32, SlotModel)>::empty())
            &&& (k > 0 ==> r.0.slots == seq![
                (
                    frame_seq,
                    SlotModel {
                        frags: spec_filled_frags(payloads, order.take(k)),
                        pts_ms,
                        is_keyframe,
                        first_seen_ms: now_ms,
                    },
                ),
            ])
            &&& (k > 0 ==> spec_num_filled(spec_filled_frags(payloads, order.take(k))) == k)
        }),
    decreases k,
{
    let count = payloads.len() as int;
    let packets = Seq::new(
        k as nat,
        |j: int| spec_fragment_packet(frame_seq, pts_ms, is_keyframe, payloads, order[j]),
    );
    if k == 0 {
        assert(packets =~= Seq::<PacketModel>::empty());
    } else {
        lemma_fill_steps(frame_seq, pts_ms, is_keyframe, payloads, order, now_ms, k - 1);
        let prev_packets = Seq::new(
            (k - 1) as nat,
            |j: int| spec_fragment_packet(frame_seq, pts_ms, is_keyframe, payloads, order[j]),
        );
        assert(packets.drop_last() =~= prev_packets);
        let prior = spec_push_trace(ReasmModel { slots: Seq::empty() }, prev_packets, now_ms);
        let p = packets.last();
        assert(p == spec_fragment_packet(frame_seq, pts_ms, is_keyframe, payloads, order[k - 1]));
        let idx = order[k - 1];
        assert(0 <= idx < count);
        if k == 1 {
            // First fragment: a fresh slot is created and filled at `idx`.
            assert(prior.0.slots == Seq::<(u32, SlotModel)>::empty());
            let kept = spec_evict(prior.0.slots, now_ms);
            assert(kept =~= Seq::<(u32, SlotModel)>::empty());
            assert(spec_find(kept, frame_seq) is None);
            let fresh = spec_new_slot(p, now_ms);
            assert(fresh.frags.len() == count);
            assert(fresh.frags[idx] is None);
            let filled = spec_fill(fresh, p);
            assert(filled.frags =~= fresh.frags.update(idx, Option::Some(payloads[idx])));
            lemma_num_filled_all_none(fresh.frags);
            lemma_num_filled_update(fresh.frags, idx, payloads[idx]);
            assert(spec_num_filled(filled.frags) == 1);
            assert(count >= 2) by {
                // k < count and k == 1 would otherwise be excluded
                assert(k < count);
            }
            assert(!spec_complete(filled));
            assert(filled.frags =~= spec_filled_frags(payloads, order.take(1))) by {
                assert forall|i: int| 0 <= i < count implies filled.frags[i]
                    == spec_filled_frags(payloads, order.take(1))[i] by {
                    if i == idx {
                        assert(order.take(1)[0] == idx);
                        assert(order.take(1).contains(idx));
                    } else if order.take(1).contains(i) {
                        let j = choose|j: int| 0 <= j < 1 && #[trigger] order.take(1)[j] == i;
                        assert(order[0] == i);
                    }
                }
            }
            assert(spec_push_trace(ReasmModel { slots: Seq::empty() }, packets, now_ms).0.slots
                =~= kept.push((frame_seq, filled)));
            assert(kept.push((frame_seq, filled)) =~= seq![(frame_seq, filled)]);
        } else {
            // Later fragment: the existing slot gains position `idx`.
            let old_frags = spec_filled_frags(payloads, order.take(k - 1));
            let slot = SlotModel { frags: old_frags, pts_ms, is_keyframe, first_seen_ms: now_ms };
            assert(prior.0.slots == seq![(frame_seq, slot)]);
            let kept = spec_evict(prior.0.slots, now_ms);
            assert(spec_keep(slot, now_ms));
            let empty_slots = Seq::<(u32, SlotModel)>::empty();
            assert(prior.0.slots.drop_last() =~= empty_slots);
            assert(spec_evict(empty_slots, now_ms) =~= empty_slots);
            assert(prior.0.slots.last() == (frame_seq, slot));
            assert(kept =~= spec_evict(prior.0.slots.drop_last(), now_ms) + seq![
                prior.0.slots.last(),
            ]);
            assert(kept =~= seq![(frame_seq, slot)]);
            assert(spec_find(kept, frame_seq) == Option::Some(0int));
            assert(!order.take(k - 1).contains(idx)) by {
                if order.take(k - 1).contains(idx) {
                    let j = choose|j: int| 0 <= j < k - 1 && #[trigger] order.take(k - 1)[j] == idx;
                    assert(order[j] == idx);
                    assert(order[j] == order[k - 1]);
                }
            }
            assert(old_frags[idx] is None);
            let filled = spec_fill(slot, p);
            assert(filled.frags =~= old_frags.update(idx, Option::Some(payloads[idx])));
            lemma_num_filled_update(old_frags, idx, payloads[idx]);
            assert(spec_num_filled(filled.frags) == k);
            assert(!spec_complete(filled));
            assert(filled.frags =~= spec_filled_frags(payloads, order.take(k))) by {
                assert forall|i: int| 0 <= i < count implies filled.frags[i]
                    == spec_filled_frags(payloads, order.take(k))[i] by {
                    if i == idx {
                        assert(order.take(k)[k - 1] == idx);
                        assert(order.take(k).contains(idx));
                    } else {
                        assert(order.take(k - 1).contains(i) <==> order.take(k).contains(i)) by {
                            if order.take(k).contains(i) {
                                let j = choose|j: int| 0 <= j < k && #[trigger] order.take(k)[j] == i;
                                assert(order[j] == i);
                                assert(j != k - 1);
                                assert(order.take(k - 1)[j] == i);
                            }
                            if order.take(k - 1).contains(i) {
                                let j = choose|j: int|
                                    0 <= j < k - 1 && #[trigger] order.take(k - 1)[j] == i;
                                assert(order.take(k)[j] == i);
                            }
                        }
                    }
                }
            }
            let step = spec_push(prior.0, p, now_ms);
            assert(step.0.slots =~= kept.update(0, (frame_seq, filled)));
            assert(step.0.slots =~= seq![(frame_seq, filled)]);
        }
    }
}

/// Full fragment vectors assemble to the concatenation of their payloads.
proof fn lemma_assemble_full(payloads: Seq<Seq<u8>>)
    ensures
        spec_assemble(Seq::new(payloads.len(), |i: int| Option::Some(payloads[i])))
            == spec_concat(payloads),
    decreases payloads.len(),
{
    let full = Seq::new(payloads.len(), |i: int| Option::Some(payloads[i]));
    if payloads.len() > 0 {
        lemma_assemble_full(payloads.drop_last());
        let prev = Seq::new(
            (payloads.len() - 1) as nat,
            |i: int| Option::Some(payloads.drop_last()[i]),
        );
        assert(full.drop_last() =~= prev);
    }
}

/// Law: a frame's fragments, delivered in any order with no loss into an
/// empty reassembler, produce exactly one emitted frame, whose data is the
/// concatenation of the fragment payloads in index order; the slot is gone
/// afterwards.
pub proof fn lemma_lossless_delivery_assembles_frame(
    frame_seq: u32,
    pts_ms: u32,
    is_keyframe: bool,
    payloads: Seq<Seq<u8>>,
    order: Seq<int>,
    now_ms: u64,
)
    requires
        1 <= payloads.len() <= 0xffff,
        spec_delivery_order(order, payloads.len() as int),
    ensures
        ({
            let packets = Seq::new(
                payloads.len(),
                |j: int| spec_fragment_packet(frame_seq, pts_ms, is_keyframe, payloads, order[j]),
            );
            let r = spec_push_trace(ReasmModel { slots: Seq::empty() }, packets, now_ms);
            &&& r.1 == seq![
                EncodedFrameModel {
                    data: spec_concat(payloads),
                    timestamp_us: (pts_ms * 1000) as u64,
                    is_keyframe,
                    codec: VideoCodec::H264,
                },
            ]
            &&& r.0.slots == Seq::<(u32, SlotModel)>::empty()
        }),
{
    let count = payloads.len() as int;
    let packets = Seq::new(
        payloads.len(),
        |j: int| spec_fragment_packet(frame_seq, pts_ms, is_keyframe, payloads, order[j]),
    );
    lemma_fill_steps(frame_seq, pts_ms, is_keyframe, payloads, order, now_ms, count - 1);
    let prev_packets = Seq::new(
        (count - 1) as nat,
        |j: int| spec_fragment_packet(frame_seq, pts_ms, is_keyframe, payloads, order[j]),
    );
    assert(packets.drop_last() =~= prev_packets);
    let prior = spec_push_trace(ReasmModel { slots: Seq::empty() }, prev_packets, now_ms);
    let p = packets.last();
    let idx = order[count - 1];
    assert(p == spec_fragment_packet(frame_seq, pts_ms, is_keyframe, payloads, idx));
    let full = Seq::new(payloads.len(), |i: int| Option::Some(payloads[i]));
    let filled = if count == 1 {
        // The only fragment creates and completes the slot at once.
        let kept = spec_evict(prior.0.slots, now_ms);
        assert(kept =~= Seq::<(u32, SlotModel)>::empty());
        assert(spec_find(kept, frame_seq) is None);
        let fresh = spec_new_slot(p, now_ms);
        assert(idx == 0);
        assert(fresh.frags[0] is None);
        let f = spec_fill(fresh, p);
        assert(f.frags =~= fresh.frags.update(0, Option::Some(payloads[0])));
        lemma_num_filled_all_none(fresh.frags);
        lemma_num_filled_update(fresh.frags, 0, payloads[0]);
        assert(spec_complete(f));
        f
    } else {
        let old_frags = spec_filled_frags(payloads, order.take(count - 1));
        let slot = SlotModel { frags: old_frags, pts_ms, is_keyframe, first_seen_ms: now_ms };
        assert(prior.0.slots == seq![(frame_seq, slot)]);
        let kept = spec_evict(prior.0.slots, now_ms);
        assert(spec_keep(slot, now_ms));
        let empty_slots = Seq::<(u32, SlotModel)>::empty();
        assert(prior.0.slots.drop_last() =~= empty_slots);
        assert(spec_evict(empty_slots, now_ms) =~= empty_slots);
        assert(prior.0.slots.last() == (frame_seq, slot));
        assert(kept =~= spec_evict(prior.0.slots.drop_last(), now_ms) + seq![
            prior.0.slots.last(),
        ]);
        assert(kept =~= seq![(frame_seq, slot)]);
        assert(spec_find(kept, frame_seq) == Option::Some(0int));
        assert(!order.take(count - 1).contains(idx)) by {
            if order.take(count - 1).contains(idx) {
                let j = choose|j: int| 0 <= j < count - 1 && #[trigger] order.take(count - 1)[j] == idx;
                assert(order[j] == idx);
                assert(order[j] == order[count - 1]);
            }
        }
        assert(old_frags[idx] is None);
        let f = spec_fill(slot, p);
        assert(f.frags =~= old_frags.update(idx, Option::Some(payloads[idx])));
        lemma_num_filled_update(old_frags, idx, payloads[idx]);
        assert(spec_num_filled(f.frags) == count);
        assert(spec_complete(f));
        let step = spec_push(prior.0, p, now_ms);
        assert(step.0.slots =~= kept.remove(0));
        assert(kept.remove(0) =~= Seq::<(u32, SlotModel)>::empty());
        f
    };
    assert(filled.frags =~= full) by {
        lemma_num_filled_full(filled.frags);
        assert forall|i: int| 0 <= i < count implies filled.frags[i] == full[i] by {
            assert(filled.frags[i] is Some);
            if count == 1 {
            } else {
                if i == idx {
                } else {
                    assert(order.take(count - 1).contains(i) || filled.frags[i] is None);
                }
            }
        }
    }
    lemma_assemble_full(payloads);
    assert(spec_frame_of(filled).data == spec_concat(payloads));
}

/// Law: the wire round-trips.  Take the datagrams the packetiser produced
/// for one frame — anything satisfying the packetiser's contract — deliver
/// them in any order with no loss into an empty reassembler, and exactly
/// one frame is emitted, whose data is the original frame's bytes.
pub proof fn lemma_wire_round_trip(
    datagrams: Seq<Seq<u8>>,
    data: Seq<u8>,
    frame_seq: u32,
    pts_ms: u32,
    is_keyframe: bool,
    order: Seq<int>,
    now_ms: u64,
)
    requires
        datagrams.len() == crate::dlnk::spec_frag_count(data.len()),
        datagrams.len() <= 0xffff,
        forall|i: int|
            0 <= i < datagrams.len() ==> {
                let d = #[trigger] datagrams[i];
                &&& crate::dlnk::spec_is_dlnk_packet(d)
                &&& crate::dlnk::spec_be32(d[4], d[5], d[6], d[7]) == frame_seq
                &&& crate::dlnk::spec_be16(d[8], d[9]) == i
                &&& crate::dlnk::spec_be16(d[10], d[11]) == datagrams.len()
                &&& crate::dlnk::spec_be32(d[12], d[13], d[14], d[15]) == pts_ms
                &&& (d[16] & 1 != 0) == is_keyframe
                &&& d.subrange(crate::dlnk::HEADER_SIZE as int, d.len() as int)
                    == crate::dlnk::spec_frag_payload(data, i)
            },
        spec_delivery_order(order, datagrams.len() as int),
    ensures
        ({
            let packets = Seq::new(
                datagrams.len(),
                |j: int| spec_packet_of(datagrams[order[j]]),
            );
            let r = spec_push_trace(ReasmModel { slots: Seq::empty() }, packets, now_ms);
            &&& r.1 == seq![
                EncodedFrameModel {
                    data: data,
                    timestamp_us: (pts_ms * 1000) as u64,
                    is_keyframe,
                    codec: VideoCodec::H264,
                },
            ]
            &&& r.0.slots == Seq::<(u32, SlotModel)>::empty()
        }),
{
    let count = datagrams.len() as int;
    let payloads = Seq::new(datagrams.len(), |i: int| crate::dlnk::spec_frag_payload(data, i));
    assert forall|j: int| 0 <= j < count implies spec_packet_of(#[trigger] datagrams[order[j]])
        == spec_fragment_packet(frame_seq, pts_ms, is_keyframe, payloads, order[j]) by {
        let i = order[j];
        let d = datagrams[i];
        assert(crate::dlnk::spec_be32(d[4], d[5], d[6], d[7]) == frame_seq);
        assert(crate::dlnk::spec_be16(d[8], d[9]) == i);
        assert(payloads[i] == crate::dlnk::spec_frag_payload(data, i));
    }
    let packets = Seq::new(datagrams.len(), |j: int| spec_packet_of(datagrams[order[j]]));
    let fragment_packets = Seq::new(
        datagrams.len(),
        |j: int| spec_fragment_packet(frame_seq, pts_ms, is_keyframe, payloads, order[j]),
    );
    assert(packets =~= fragment_packets);
    lemma_lossless_delivery_assembles_frame(
        frame_seq,
        pts_ms,
        is_keyframe,
        payloads,
        order,
        now_ms,
    );
    crate::dlnk::lemma_fragment_payloads_concat(data);
    assert(spec_concat(payloads) == data);
}

/// Law: a duplicate fragment — one whose position in its slot is already
/// filled, or whose index is out of range — neither changes the slot nor
/// emits a frame, so the frame eventually assembled is the same as if the
/// duplicate had never arrived.
pub proof fn lemma_duplicate_fragment_idempotent(m: ReasmModel, p: PacketModel, now_ms: u64)
    requires
        ({
            let kept = spec_evict(m.slots, now_ms);
            match spec_find(kept, p.frame_seq) {
                Option::Some(i) => {
                    &&& (p.frag_index < kept[i].1.frags.len() ==> kept[i].1.frags[p.frag_index as int]
                        is Some)
                    &&& spec_num_filled(kept[i].1.frags) < kept[i].1.frags.len()
                },
                Option::None => false,
            }
        }),
    ensures
        spec_push(m, p, now_ms).0.slots == spec_evict(m.slots, now_ms),
        spec_push(m, p, now_ms).1 is None,
{
    let kept = spec_evict(m.slots, now_ms);
    let i = spec_find(kept, p.frame_seq)->Some_0;
    lemma_find_char(kept, p.frame_seq);
    let slot = kept[i].1;
    let filled = spec_fill(slot, p);
    assert(filled == slot);
    assert(!spec_complete(filled));
    assert(spec_push(m, p, now_ms).0.slots =~= kept.update(i, (p.frame_seq, slot)));
    assert(kept.update(i, (p.frame_seq, slot)) =~= kept);
}

/// Everything that survives eviction is fresh enough.
pub proof fn lemma_evict_all_kept(slots: Seq<(u32, SlotModel)>, now_ms: u64)
    ensures
        forall|k: int|
            0 <= k < spec_evict(slots, now_ms).len() ==> spec_keep(
                (#[trigger] spec_evict(slots, now_ms)[k]).1,
                now_ms,
            ),
    decreases slots.len(),
{
    if slots.len() > 0 {
        let pre = slots.drop_last();
        lemma_evict_all_kept(pre, now_ms);
        let kept = spec_evict(slots, now_ms);
        let kept_pre = spec_evict(pre, now_ms);
        assert forall|k: int| 0 <= k < kept.len() implies spec_keep(
            (#[trigger] kept[k]).1,
            now_ms,
        ) by {
            if k < kept_pre.len() {
                assert(kept[k] == kept_pre[k]);
            } else {
                assert(kept[k] == slots.last());
            }
        }
    }
}

/// Law: a slot whose fragments stopped arriving is reclaimed by the next
/// packet that comes at least two seconds after the slot was created, and no
/// frame for it is ever emitted — the only frame a push can emit is for the
/// pushed packet's own sequence number.
pub proof fn lemma_stale_slot_reclaimed(m: ReasmModel, p: PacketModel, now_ms: u64, seq: u32)
    requires
        p.frame_seq != seq,
        forall|i: int|
            0 <= i < m.slots.len() && (#[trigger] m.slots[i]).0 == seq ==> !spec_keep(
                m.slots[i].1,
                now_ms,
            ),
    ensures
        spec_find(spec_push(m, p, now_ms).0.slots, seq) is None,
{
    let kept = spec_evict(m.slots, now_ms);
    lemma_evict_membership(m.slots, now_ms);
    lemma_evict_all_kept(m.slots, now_ms);
    assert forall|k: int| 0 <= k < kept.len() implies (#[trigger] kept[k]).0 != seq by {
        if kept[k].0 == seq {
            assert(kept.contains(kept[k]));
            assert(m.slots.contains(kept[k]));
            let j = choose|j: int| 0 <= j < m.slots.len() && m.slots[j] == kept[k];
            assert(!spec_keep(m.slots[j].1, now_ms));
            assert(spec_keep(kept[k].1, now_ms));
        }
    }
    let result = spec_push(m, p, now_ms).0.slots;
    lemma_find_char(kept, p.frame_seq);
    match spec_find(kept, p.frame_seq) {
        Option::Some(i) => {
            let filled = spec_fill(kept[i].1, p);
            if spec_complete(filled) {
                kept.remove_ensures(i);
                assert forall|k: int| 0 <= k < result.len() implies (#[trigger] result[k]).0
                    != seq by {
                    if k < i {
                        assert(result[k] == kept[k]);
                    } else {
                        assert(result[k] == kept[k + 1]);
                    }
                }
                lemma_find_none(result, seq);
            } else {
                assert forall|k: int| 0 <= k < result.len() implies (#[trigger] result[k]).0
                    != seq by {
                    if k != i {
                        assert(result[k] == kept[k]);
                    }
                }
                lemma_find_none(result, seq);
            }
        },
        Option::None => {
            let filled = spec_fill(spec_new_slot(p, now_ms), p);
            if spec_complete(filled) {
                lemma_find_none(result, seq);
            } else {
                assert forall|k: int| 0 <= k < result.len() implies (#[trigger] result[k]).0
                    != seq by {
                    if k < kept.len() {
                        assert(result[k] == kept[k]);
                    }
                }
                lemma_find_none(result, seq);
            }
        },
    }
}

impl PartialFrame {
    /// Field consistency: the counters match the fragment vector, and a
    /// stored slot is never complete.
    pub open spec fn wf(&self) -> bool {
        &&& self.fragments@.len() == self.total
        &&& self.total >= 1
        &&& self.received as int == spec_num_filled(self@.frags)
        &&& self.received < self.total
    }
}

/// Reassembles frames from DLNK fragments, one slot per outstanding frame
/// sequence number.
pub struct Reassembler {
    slots: Vec<(u32, PartialFrame)>,
}

impl View for Reassembler {
    type V = ReasmModel;

    closed spec fn view(&self) -> ReasmModel {
        ReasmModel { slots: self.slots@.map_values(|e: (u32, PartialFrame)| (e.0, e.1@)) }
    }
}

impl Reassembler {
    /// Structural invariant: every stored slot is consistent and incomplete,
    /// and no two slots share a frame sequence number.
    pub closed spec fn wf(&self) -> bool {
        &&& forall|i: int| 0 <= i < self.slots@.len() ==> (#[trigger] self.slots@[i]).1.wf()
        &&& spec_unique_keys(self@.slots)
    }

    pub fn new() -> (r: Reassembler)
        ensures
            r.wf(),
            r@.slots == Seq::<(u32, SlotModel)>::empty(),
    {
        let r = Reassembler { slots: Vec::new() };
        proof {
            assert(r@.slots =~= Seq::<(u32, SlotModel)>::empty());
        }
        r
    }

    /// Number of outstanding partial frames.
    pub fn outstanding(&self) -> (n: usize)
        ensures
            n == self@.slots.len(),
    {
        self.slots.len()
    }

    /// Drop every slot older than [`REASSEMBLY_TIMEOUT_MS`].
    fn evict_stale(&mut self, now_ms: u64)
        requires
            old(self).wf(),
        ensures
            final(self).wf(),
            final(self)@.slots == spec_evict(old(self)@.slots, now_ms),
    {
        let ghost orig = self@.slots;
        let ghost mut processed: int = 0;
        let mut i: usize = 0;
        while i < self.slots.len()
            invariant
                0 <= processed <= orig.len(),
                i == spec_evict(orig.subrange(0, processed), now_ms).len(),
                self@.slots =~= spec_evict(orig.subrange(0, processed), now_ms) + orig.subrange(
                    processed,
                    orig.len() as int,
                ),
                i <= self.slots@.len(),
                self.slots@.len() - i == orig.len() - processed,
                forall|k: int| 0 <= k < self.slots@.len() ==> (#[trigger] self.slots@[k]).1.wf(),
            decreases orig.len() - processed,
        {
            let ghost pre = orig.subrange(0, processed);
            let ghost cur = orig.subrange(0, processed + 1);
            proof {
                assert(cur.drop_last() =~= pre);
                assert(cur.last() == orig[processed]);
                assert(self@.slots[i as int] == orig[processed]);
            }
            let first_seen = self.slots[i].1.first_seen_ms;
            if now_ms > first_seen && now_ms - first_seen > REASSEMBLY_TIMEOUT_MS {
                let ghost before = self@.slots;
                let _ = self.slots.remove(i);
                proof {
                    assert(!spec_keep(orig[processed].1, now_ms));
                    assert(spec_evict(cur, now_ms) =~= spec_evict(pre, now_ms));
                    assert(self@.slots =~= before.remove(i as int));
                    assert(before.remove(i as int) =~= spec_evict(cur, now_ms) + orig.subrange(
                        processed + 1,
                        orig.len() as int,
                    ));
                }
            } else {
                proof {
                    assert(now_ms <= orig[processed].1.first_seen_ms + REASSEMBLY_TIMEOUT_MS);
                    assert(spec_keep(orig[processed].1, now_ms));
                    assert(spec_evict(cur, now_ms) =~= spec_evict(pre, now_ms) + seq![
                        orig[processed],
                    ]);
                }
                i = i + 1;
                proof {
                    assert(orig.subrange(processed, orig.len() as int) =~= seq![orig[processed]]
                        + orig.subrange(processed + 1, orig.len() as int));
                    assert(self@.slots =~= spec_evict(cur, now_ms) + orig.subrange(
                        processed + 1,
                        orig.len() as int,
                    ));
                }
            }
            proof {
                processed = processed + 1;
            }
        }
        proof {
            assert(orig.subrange(0, orig.len() as int) =~= orig);
            assert(self@.slots =~= spec_evict(orig, now_ms));
            lemma_evict_unique(orig, now_ms);
        }
    }

    /// Index of the slot for `frame_seq`, if present.
    fn find_slot(&self, frame_seq: u32) -> (r: Option<usize>)
        ensures
            match r {
                Option::Some(i) => spec_find(self@.slots, frame_seq) == Option::Some(i as int),
                Option::None => spec_find(self@.slots, frame_seq) is None,
            },
    {
        let n = self.slots.len();
        for j in 0..n
            invariant
                n == self.slots@.len(),
                forall|k: int| 0 <= k < j ==> (#[trigger] self@.slots[k]).0 != frame_seq,
        {
            if self.slots[j].0 == frame_seq {
                proof {
                    lemma_find_from_witness(self@.slots, frame_seq, j as int);
                }
                return Some(j);
            }
            proof {
                assert(self@.slots[j as int].0 == self.slots@[j as int].0);
            }
        }
        proof {
            lemma_find_none(self@.slots, frame_seq);
        }
        None
    }

    /// Feed one packet; returns the completed frame, if this packet finished
    /// one.  The whole effect is [`spec_push`] of the packet on the model.
    pub fn push(&mut self, packet: DualLinkPacket, now_ms: u64) -> (r: Option<EncodedFrame>)
        requires
            old(self).wf(),
            packet.frag_count >= 1,
        ensures
            final(self).wf(),
            final(self)@ == spec_push(old(self)@, packet@, now_ms).0,
            match r {
                Option::Some(f) => spec_push(old(self)@, packet@, now_ms).1 == Option::Some(f@),
                Option::None => spec_push(old(self)@, packet@, now_ms).1 is None,
            },
    {
        let ghost m0 = self@;
        self.evict_stale(now_ms);
        let ghost kept = self@.slots;
        proof {
            lemma_find_char(kept, packet@.frame_seq);
        }
        match self.find_slot(packet.frame_seq) {
            Some(i) => {
                let ghost before = self@.slots;
                let ghost vec_before = self.slots@;
                let (key, mut pf) = self.slots.remove(i);
                proof {
                    assert(pf@ == kept[i as int].1);
                    assert(key == packet.frame_seq);
                    assert(pf.wf());
                    assert(self@.slots =~= before.remove(i as int));
                }
                let frame = Self::store_fragment(&mut pf, &packet);
                proof {
                    assert(pf@ == spec_fill(kept[i as int].1, packet@));
                }
                match frame {
                    Some(f) => {
                        proof {
                            assert(spec_complete(spec_fill(kept[i as int].1, packet@)));
                            vec_before.remove_ensures(i as int);
                            kept.remove_ensures(i as int);
                            assert forall|k: int|
                                0 <= k < self.slots@.len() implies (
                            #[trigger] self.slots@[k]).1.wf() by {
                                if k < i {
                                    assert(self.slots@[k] == vec_before[k]);
                                } else {
                                    assert(self.slots@[k] == vec_before[k + 1]);
                                }
                            }
                            assert forall|a: int, b: int|
                                0 <= a < b < self@.slots.len() implies (
                            #[trigger] self@.slots[a]).0 != (#[trigger] self@.slots[b]).0 by {
                                let a2: int = if a < i { a } else { a + 1 };
                                let b2: int = if b < i { b } else { b + 1 };
                                assert(self@.slots[a] == kept[a2]);
                                assert(self@.slots[b] == kept[b2]);
                            }
                        }
                        Some(f)
                    },
                    None => {
                        let ghost removed = self@.slots;
                        let ghost filled = spec_fill(kept[i as int].1, packet@);
                        self.slots.insert(i, (key, pf));
                        proof {
                            assert(self@.slots =~= removed.insert(i as int, (
                                packet@.frame_seq,
                                filled,
                            )));
                            vec_before.remove_ensures(i as int);
                            kept.remove_ensures(i as int);
                            assert(self@.slots =~= kept.update(i as int, (
                                packet@.frame_seq,
                                filled,
                            )));
                            assert(self.slots@ =~= vec_before.update(i as int, (key, pf)));
                            assert(pf.received < pf.total) by {
                                lemma_num_filled_bounds(pf@.frags);
                            }
                            assert(pf.wf());
                            assert forall|k: int|
                                0 <= k < self.slots@.len() implies (
                            #[trigger] self.slots@[k]).1.wf() by {
                                if k != i {
                                    assert(self.slots@[k] == vec_before[k]);
                                }
                            }
                            assert forall|a: int, b: int|
                                0 <= a < b < self@.slots.len() implies (
                            #[trigger] self@.slots[a]).0 != (#[trigger] self@.slots[b]).0 by {
                                assert(self@.slots[a].0 == kept[a].0);
                                assert(self@.slots[b].0 == kept[b].0);
                            }
                        }
                        None
                    },
                }
            },
            None => {
                let total = packet.frag_count;
                let mut fragments: Vec<Option<Vec<u8>>> = Vec::new();
                let count = total as usize;
                for k in 0..count
                    invariant
                        fragments@.len() == k,
                        forall|q: int| 0 <= q < k ==> fragments@[q] is None,
                {
                    fragments.push(None);
                }
                let mut slot = PartialFrame {
                    fragments,
                    received: 0,
                    total,
                    pts_ms: packet.pts_ms,
                    is_keyframe: packet.is_keyframe,
                    first_seen_ms: now_ms,
                };
                proof {
                    assert(slot@.frags =~= spec_new_slot(packet@, now_ms).frags);
                    assert(slot@ == spec_new_slot(packet@, now_ms));
                    lemma_num_filled_all_none(slot@.frags);
                }
                let frame = Self::store_fragment(&mut slot, &packet);
                proof {
                    assert(slot@ == spec_fill(spec_new_slot(packet@, now_ms), packet@));
                }
                match frame {
                    Some(f) => Some(f),
                    None => {
                        let ghost pre = self@.slots;
                        let ghost vec_pre = self.slots@;
                        self.slots.push((packet.frame_seq, slot));
                        proof {
                            assert(self@.slots =~= pre.push((
                                packet@.frame_seq,
                                spec_fill(spec_new_slot(packet@, now_ms), packet@),
                            )));
                            assert(slot.received < slot.total) by {
                                lemma_num_filled_bounds(slot@.frags);
                            }
                            assert(slot.wf());
                            assert forall|k: int|
                                0 <= k < self.slots@.len() implies (
                            #[trigger] self.slots@[k]).1.wf() by {
                                if k < vec_pre.len() {
                                    assert(self.slots@[k] == vec_pre[k]);
                                }
                            }
                            assert forall|a: int, b: int|
                                0 <= a < b < self@.slots.len() implies (
                            #[trigger] self@.slots[a]).0 != (#[trigger] self@.slots[b]).0 by {
                                if b < kept.len() {
                                    assert(self@.slots[a] == kept[a]);
                                    assert(self@.slots[b] == kept[b]);
                                } else {
                                    assert(self@.slots[a] == kept[a]);
                                    assert(self@.slots[b].0 == packet@.frame_seq);
                                    assert(kept[a].0 != packet@.frame_seq);
                                }
                            }
                        }
                        None
                    },
                }
            },
        }
    }

    /// Parse one UDP datagram and feed it to the reassembler.  A datagram
    /// that is not a DLNK packet — too short, wrong magic, or a zero
    /// fragment count — is dropped without touching any state; a valid one
    /// has the effect of [`spec_push`].
    pub fn ingest(&mut self, datagram: &[u8], now_ms: u64) -> (r: Option<EncodedFrame>)
        requires
            old(self).wf(),
        ensures
            final(self).wf(),
            !crate::dlnk::spec_is_dlnk_packet(datagram@) ==> final(self)@ == old(self)@ && r
                is None,
            crate::dlnk::spec_is_dlnk_packet(datagram@) ==> {
                let p = spec_packet_of(datagram@);
                &&& final(self)@ == spec_push(old(self)@, p, now_ms).0
                &&& (match r {
                    Option::Some(f) => spec_push(old(self)@, p, now_ms).1 == Option::Some(f@),
                    Option::None => spec_push(old(self)@, p, now_ms).1 is None,
                })
            },
    {
        match crate::dlnk::parse_packet(datagram) {
            Some(packet) => {
                proof {
                    assert(packet@.payload =~= spec_packet_of(datagram@).payload);
                    assert(packet@ == spec_packet_of(datagram@));
                }
                self.push(packet, now_ms)
            },
            None => None,
        }
    }

    /// Place the packet's payload in the slot; when the slot becomes
    /// complete, assemble and return the frame.  The caller removes or
    /// reinserts the slot.
    fn store_fragment(slot: &mut PartialFrame, packet: &DualLinkPacket) -> (r: Option<
        EncodedFrame,
    >)
        requires
            old(slot).fragments@.len() == old(slot).total,
            old(slot).total >= 1,
            old(slot).received as int == spec_num_filled(old(slot)@.frags),
        ensures
            final(slot)@ == spec_fill(old(slot)@, packet@),
            final(slot).fragments@.len() == final(slot).total,
            final(slot).total == old(slot).total,
            final(slot).received as int == spec_num_filled(final(slot)@.frags),
            match r {
                Option::Some(f) => spec_complete(final(slot)@) && f@ == spec_frame_of(
                    final(slot)@,
                ),
                Option::None => !spec_complete(final(slot)@),
            },
    {
        proof {
            lemma_num_filled_bounds(slot@.frags);
        }
        let idx = packet.frag_index as usize;
        if idx < slot.fragments.len() {
            let ghost frags0 = slot@.frags;
            let existing = slot.fragments.remove(idx);
            match existing {
                Some(prev) => {
                    slot.fragments.insert(idx, Some(prev));
                    proof {
                        assert(slot@.frags =~= frags0);
                        assert(slot@ == spec_fill(old(slot)@, packet@));
                    }
                },
                None => {
                    let payload = vstd::slice::slice_to_vec(packet.payload.as_slice());
                    slot.fragments.insert(idx, Some(payload));
                    proof {
                        assert(slot@.frags =~= frags0.update(
                            idx as int,
                            Option::Some(packet@.payload),
                        ));
                        lemma_num_filled_update(frags0, idx as int, packet@.payload);
                        lemma_num_filled_bounds(slot@.frags);
                        assert(old(slot).received < old(slot).total);
                    }
                    slot.received = slot.received + 1;
                },
            }
        } else {
            proof {
                assert(slot@ == spec_fill(old(slot)@, packet@));
            }
        }
        if slot.received == slot.total {
            proof {
                assert(spec_complete(slot@));
            }
            let data = assemble_fragments(&slot.fragments);
            let timestamp_us = slot.pts_ms as u64 * 1000;
            Some(
                EncodedFrame {
                    data,
                    timestamp_us,
                    is_keyframe: slot.is_keyframe,
                    codec: VideoCodec::H264,
                },
            )
        } else {
            None
        }
    }
}

/// A vector of empty positions has a filled count of zero.
pub proof fn lemma_num_filled_all_none(frags: Seq<Option<Seq<u8>>>)
    requires
        forall|i: int| 0 <= i < frags.len() ==> frags[i] is None,
    ensures
        spec_num_filled(frags) == 0,
    decreases frags.len(),
{
    if frags.len() > 0 {
        lemma_num_filled_all_none(frags.drop_last());
    }
}

/// Concatenate the filled fragments in index order.
fn assemble_fragments(fragments: &Vec<Option<Vec<u8>>>) -> (data: Vec<u8>)
    ensures
        data@ == spec_assemble(
            fragments@.map_values(|f: Option<Vec<u8>>| match f {
                Option::Some(v) => Option::Some(v@),
                Option::None => Option::None,
            }),
        ),
{
    let ghost model = fragments@.map_values(|f: Option<Vec<u8>>| match f {
        Option::Some(v) => Option::Some(v@),
        Option::None => Option::None,
    });
    let mut data: Vec<u8> = Vec::new();
    let n = fragments.len();
    for j in 0..n
        invariant
            n == fragments@.len(),
            model == fragments@.map_values(|f: Option<Vec<u8>>| match f {
                Option::Some(v) => Option::Some(v@),
                Option::None => Option::None,
            }),
            data@ == spec_assemble(model.subrange(0, j as int)),
    {
        proof {
            assert(model.subrange(0, j + 1 as int).drop_last() =~= model.subrange(0, j as int));
            assert(model.subrange(0, j + 1 as int).last() == model[j as int]);
        }
        match &fragments[j] {
            Some(f) => {
                data.extend_from_slice(f.as_slice());
            },
            None => {},
        }
    }
    proof {
        assert(model.subrange(0, n as int) =~= model);
    }
    data
}

} // verus!
