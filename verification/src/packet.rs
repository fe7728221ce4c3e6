//! Packetizer and depacketizer for the audio pipeline.
//!
//! On capture, samples accumulate until a full packet's worth is on hand;
//! complete packets are emitted and any remainder is retained for the next
//! call.  On playback, queued packets are drained sample by sample into the
//! output buffer, and silence (the wire midpoint) is emitted for every
//! sample with no data queued, so a playback request never blocks and is
//! always filled completely.

use vstd::prelude::*;

verus! {

use crate::codec::MIDPOINT;
use crate::events::AudioPacket;

/// Number of samples in one packet: the frame duration's worth of frames at
/// the stream's sample rate, rounded down, times the channel count.
pub open spec fn spec_packet_samples(sample_rate: int, channels: int, frame_ms: int) -> int {
    sample_rate * frame_ms / 1000 * channels
}

/// Compute a packet length from a negotiated stream configuration and a
/// target frame duration in milliseconds.
pub fn packet_samples(sample_rate: u32, channels: u16, frame_ms: u32) -> (n: usize)
    requires
        spec_packet_samples(sample_rate as int, channels as int, frame_ms as int)
            <= usize::MAX as int,
    ensures
        n == spec_packet_samples(sample_rate as int, channels as int, frame_ms as int),
{
    assert((sample_rate as int) * (frame_ms as int) <= u64::MAX as int) by (nonlinear_arith)
        requires
            sample_rate <= u32::MAX && frame_ms <= u32::MAX,
    ;
    let frames: u64 = (sample_rate as u64) * (frame_ms as u64) / 1000;
    assert(frames * (channels as int) <= usize::MAX as int) by {
        assert(frames == (sample_rate as int) * (frame_ms as int) / 1000);
    };
    (frames * (channels as u64)) as usize
}

/// Groups a continuous sample stream into fixed-length packets.
pub struct Packetizer {
    packet_len: usize,
    acc: Vec<u16>,
}

impl Packetizer {
    /// The fixed packet length, set at construction.
    pub closed spec fn spec_packet_len(&self) -> int {
        self.packet_len as int
    }

    /// The samples accumulated so far towards the next packet.
    pub closed spec fn pending(&self) -> Seq<u16> {
        self.acc@
    }

    /// A packetizer always holds strictly less than one packet.
    pub open spec fn wf(&self) -> bool {
        &&& 0 < self.spec_packet_len()
        &&& self.pending().len() < self.spec_packet_len()
    }

    /// A fresh packetizer with nothing accumulated.
    pub fn new(packet_len: usize) -> (p: Self)
        requires
            0 < packet_len,
        ensures
            p.wf(),
            p.spec_packet_len() == packet_len,
            p.pending() == Seq::<u16>::empty(),
    {
        Packetizer { packet_len, acc: Vec::new() }
    }

    /// The fixed packet length.
    pub fn packet_len(&self) -> (n: usize)
        ensures
            n == self.spec_packet_len(),
    {
        self.packet_len
    }

    /// Append freshly captured samples and emit every packet they complete.
    ///
    /// The accumulated remainder followed by the new samples is cut into
    /// consecutive full packets, in order; whatever is left short of a packet
    /// stays accumulated for the next call.
    pub fn push(&mut self, samples: &[u16]) -> (packets: Vec<AudioPacket>)
        requires
            old(self).wf(),
            old(self).pending().len() + samples@.len() <= usize::MAX,
        ensures
            final(self).wf(),
            final(self).spec_packet_len() == old(self).spec_packet_len(),
            ({
                let total = old(self).pending() + samples@;
                let l = old(self).spec_packet_len();
                let k = packets@.len() as int;
                &&& k == total.len() as int / l
                &&& forall|j: int|
                    0 <= j < k ==> (#[trigger] packets@[j])@ == total.subrange(j * l, j * l + l)
                &&& final(self).pending() == total.subrange(k * l, total.len() as int)
            }),
    {
        let ghost total = self.acc@ + samples@;
        let ghost l = self.packet_len as int;
        let mut packets: Vec<AudioPacket> = Vec::new();
        let mut idx: usize = 0;
        proof {
            assert(packets@.len() * l == 0);
            assert(self.acc@ =~= total.subrange(0, self.acc@.len() as int));
        }
        while idx < samples.len()
            invariant
                self.packet_len == old(self).packet_len,
                0 < l == self.packet_len as int,
                total == old(self).pending() + samples@,
                idx <= samples@.len(),
                old(self).pending().len() + samples@.len() <= usize::MAX,
                self.acc@.len() < l,
                packets@.len() * l + self.acc@.len() == old(self).pending().len() + idx,
                forall|j: int|
                    0 <= j < packets@.len() ==> (#[trigger] packets@[j])@ == total.subrange(
                        j * l,
                        j * l + l,
                    ),
                self.acc@ == total.subrange(
                    packets@.len() * l,
                    packets@.len() * l + self.acc@.len(),
                ),
            decreases samples@.len() - idx,
        {
            let ghost k = packets@.len() as int;
            self.acc.push(samples[idx]);
            idx = idx + 1;
            proof {
                assert(total[k * l + self.acc@.len() - 1] == samples@[idx - 1]);
                assert(self.acc@ == total.subrange(k * l, k * l + self.acc@.len()));
            }
            if self.acc.len() == self.packet_len {
                let mut full: Vec<u16> = Vec::new();
                core::mem::swap(&mut full, &mut self.acc);
                packets.push(full);
                proof {
                    assert((k + 1) * l == k * l + l) by (nonlinear_arith);
                    assert(self.acc@ == total.subrange(
                        (k + 1) * l,
                        (k + 1) * l + self.acc@.len(),
                    ));
                }
            }
        }
        proof {
            let k = packets@.len() as int;
            vstd::arithmetic::div_mod::lemma_fundamental_div_mod_converse(
                total.len() as int,
                l,
                k,
                self.acc@.len() as int,
            );
            assert(self.acc@ == total.subrange(k * l, total.len() as int));
        }
        packets
    }
}

/// Drains queued packets into playback buffers, substituting silence when
/// the queue runs dry.
pub struct Depacketizer {
    queued: Vec<u16>,
}

impl Depacketizer {
    /// The samples queued for playback, oldest first.
    pub closed spec fn queued_samples(&self) -> Seq<u16> {
        self.queued@
    }

    /// A fresh depacketizer with nothing queued.
    pub fn new() -> (d: Self)
        ensures
            d.queued_samples() == Seq::<u16>::empty(),
    {
        Depacketizer { queued: Vec::new() }
    }

    /// How many samples are queued.
    pub fn queued_len(&self) -> (n: usize)
        ensures
            n == self.queued_samples().len(),
    {
        self.queued.len()
    }

    /// Queue one received packet behind everything already queued.
    pub fn enqueue(&mut self, packet: AudioPacket)
        requires
            old(self).queued_samples().len() + packet@.len() <= usize::MAX,
        ensures
            final(self).queued_samples() == old(self).queued_samples() + packet@,
    {
        let mut packet = packet;
        self.queued.append(&mut packet);
    }

    /// Fill a playback request of `count` samples: queued samples first, in
    /// order, then the silence value for every sample past the queue's end.
    /// Never blocks and never comes up short.
    pub fn fill(&mut self, count: usize) -> (out: Vec<u16>)
        ensures
            out@.len() == count,
            ({
                let played = if count <= old(self).queued_samples().len() {
                    count as int
                } else {
                    old(self).queued_samples().len() as int
                };
                &&& forall|i: int|
                    0 <= i < played ==> out@[i] == old(self).queued_samples()[i]
                &&& forall|i: int| played <= i < count ==> out@[i] == MIDPOINT
                &&& final(self).queued_samples() == old(self).queued_samples().skip(played)
            }),
    {
        let played: usize = if count <= self.queued.len() {
            count
        } else {
            self.queued.len()
        };
        let mut out: Vec<u16> = Vec::new();
        let mut i: usize = 0;
        while i < played
            invariant
                i <= played <= self.queued@.len(),
                self == old(self),
                out@.len() == i,
                forall|j: int| 0 <= j < i ==> out@[j] == self.queued@[j],
            decreases played - i,
        {
            out.push(self.queued[i]);
            i = i + 1;
        }
        while i < count
            invariant
                played <= i <= count,
                played <= self.queued@.len(),
                self == old(self),
                out@.len() == i,
                forall|j: int| 0 <= j < played ==> out@[j] == self.queued@[j],
                forall|j: int| played <= j < i ==> out@[j] == MIDPOINT,
            decreases count - i,
        {
            out.push(MIDPOINT);
            i = i + 1;
        }
        let mut rest: Vec<u16> = Vec::new();
        let mut j: usize = played;
        while j < self.queued.len()
            invariant
                played <= j <= self.queued@.len(),
                self == old(self),
                rest@ == self.queued@.subrange(played as int, j as int),
            decreases self.queued@.len() - j,
        {
            rest.push(self.queued[j]);
            j = j + 1;
        }
        self.queued = rest;
        proof {
            assert(self.queued_samples() =~= old(self).queued_samples().skip(played as int));
        }
        out
    }
}

} // verus!
