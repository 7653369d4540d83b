use vstd::prelude::*;

verus! {

/// Counters of a receiving stream: frames assembled and dropped, packets seen and anomalous.
/// Each counter wraps around on overflow, as an atomic `fetch_add` does.
#[derive(Debug, Default)]
pub struct StreamStats {
    frames: u64,
    dropped_frames: u64,
    packets: u64,
    packet_anomalies: u64,
}

/// The four counters, in the order frames, dropped frames, packets, packet anomalies.
pub struct StatsView {
    pub frames: u64,
    pub dropped_frames: u64,
    pub packets: u64,
    pub packet_anomalies: u64,
}

impl View for StreamStats {
    type V = StatsView;

    open spec fn view(&self) -> StatsView {
        StatsView {
            frames: self.spec_frames(),
            dropped_frames: self.spec_dropped_frames(),
            packets: self.spec_packets(),
            packet_anomalies: self.spec_packet_anomalies(),
        }
    }
}

/// `x + 1` modulo 2^64.
pub open spec fn bump(x: u64) -> u64 {
    if x == u64::MAX {
        0
    } else {
        (x + 1) as u64
    }
}

impl StreamStats {
    pub closed spec fn spec_frames(&self) -> u64 {
        self.frames
    }

    pub closed spec fn spec_dropped_frames(&self) -> u64 {
        self.dropped_frames
    }

    pub closed spec fn spec_packets(&self) -> u64 {
        self.packets
    }

    pub closed spec fn spec_packet_anomalies(&self) -> u64 {
        self.packet_anomalies
    }

    /// All counters at zero.
    pub fn new() -> (r: StreamStats)
        ensures
            r@.frames == 0,
            r@.dropped_frames == 0,
            r@.packets == 0,
            r@.packet_anomalies == 0,
    {
        StreamStats { frames: 0, dropped_frames: 0, packets: 0, packet_anomalies: 0 }
    }

    pub fn frames(&self) -> (r: u64)
        ensures
            r == self@.frames,
    {
        self.frames
    }

    pub fn dropped_frames(&self) -> (r: u64)
        ensures
            r == self@.dropped_frames,
    {
        self.dropped_frames
    }

    pub fn packets(&self) -> (r: u64)
        ensures
            r == self@.packets,
    {
        self.packets
    }

    pub fn packet_anomalies(&self) -> (r: u64)
        ensures
            r == self@.packet_anomalies,
    {
        self.packet_anomalies
    }

    pub fn record_frame(&mut self)
        ensures
            final(self)@ == (StatsView { frames: bump(old(self)@.frames), ..old(self)@ }),
    {
        self.frames = self.frames.wrapping_add(1);
    }

    pub fn record_drop(&mut self)
        ensures
            final(self)@ == (StatsView {
                dropped_frames: bump(old(self)@.dropped_frames),
                ..old(self)@
            }),
    {
        self.dropped_frames = self.dropped_frames.wrapping_add(1);
    }

    pub fn record_packet(&mut self)
        ensures
            final(self)@ == (StatsView { packets: bump(old(self)@.packets), ..old(self)@ }),
    {
        self.packets = self.packets.wrapping_add(1);
    }

    pub fn record_packet_anomaly(&mut self)
        ensures
            final(self)@ == (StatsView {
                packet_anomalies: bump(old(self)@.packet_anomalies),
                ..old(self)@
            }),
    {
        self.packet_anomalies = self.packet_anomalies.wrapping_add(1);
    }
}

} // verus!
