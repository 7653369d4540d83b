use std::collections::HashMap;
use vstd::prelude::*;

use crate::compat_stream::{CompatPacket, FrameView, PacketView, PayloadType, VideoFrame};
use crate::pixel_format::{spec_bytes_per_pixel, spec_payload_len, PixelFormat};
use crate::stats::{bump, StatsView, StreamStats};

verus! {

broadcast use {
    vstd::std_specs::hash::group_hash_axioms,
    vstd::std_specs::hash::axiom_u32_obeys_hash_table_key_model,
    vstd::std_specs::hash::axiom_random_state_builds_valid_hashers,
};

/// The key a partial frame is filed under: its frame id.
#[derive(Clone, Copy, Debug, PartialEq, Eq, Structural)]
pub struct FrameKey(pub u32);

/// Why a frame was given up.
#[derive(Clone, Copy, Debug, PartialEq, Eq, Structural)]
pub enum FrameDropReason {
    MissingPayload,
    PayloadOverflow,
    Timeout,
    DuplicateLeader,
    PayloadBeforeLeader,
    TrailerBeforeLeader,
    PacketAfterTrailer,
    ShortFrame,
    UnsupportedPayload,
}

/// What ingesting a packet produced: a complete frame or a dropped one.
#[derive(Clone, Debug, PartialEq, Eq)]
pub enum FrameEvent {
    Complete(VideoFrame),
    Dropped { frame_id: u32, reason: FrameDropReason },
}

/// A frame event with the frame as a view.
pub enum EventView {
    Complete(FrameView),
    Dropped { frame_id: u32, reason: FrameDropReason },
}

impl View for FrameEvent {
    type V = EventView;

    open spec fn view(&self) -> EventView {
        match *self {
            FrameEvent::Complete(f) => EventView::Complete(f@),
            FrameEvent::Dropped { frame_id, reason } => EventView::Dropped { frame_id, reason },
        }
    }
}

/// A leader announced a frame whose size cannot be computed.
#[derive(Clone, Copy, Debug, PartialEq, Eq, Structural)]
pub enum AssembleError {
    UnsupportedPayload(PayloadType),
}

impl AssembleError {
    /// The human-readable text of this error.
    pub fn message(&self) -> (r: String)
        ensures
            r@ == "unsupported payload type Image"@,
    {
        match self {
            AssembleError::UnsupportedPayload(PayloadType::Image) => crate::text::owned(
                "unsupported payload type Image",
            ),
        }
    }
}

/// A payload that arrived ahead of the packets before it.
#[derive(Clone, Debug, PartialEq, Eq)]
pub struct PendingPayload {
    pub packet_id: u32,
    pub data: Vec<u8>,
}

/// A frame under assembly. Times are nanoseconds on the caller's monotonic clock.
#[derive(Clone, Debug, PartialEq, Eq)]
pub struct PartialFrame {
    pub frame_id: u32,
    pub packet_id: u32,
    pub timestamp: u64,
    pub payload_type: PayloadType,
    pub pixel_format: PixelFormat,
    pub width: u32,
    pub height: u32,
    pub offset: usize,
    pub data: Vec<u8>,
    pub pending_payloads: Vec<PendingPayload>,
    pub trailer_packet_id: Option<u32>,
    pub last_update: u64,
}

/// A partial frame with its buffers as sequences; `pending` holds (packet id, bytes) pairs.
pub struct PartialView {
    pub frame_id: u32,
    pub packet_id: u32,
    pub timestamp: u64,
    pub payload_type: PayloadType,
    pub pixel_format: PixelFormat,
    pub width: u32,
    pub height: u32,
    pub offset: nat,
    pub data: Seq<u8>,
    pub pending: Seq<(u32, Seq<u8>)>,
    pub trailer_packet_id: Option<u32>,
    pub last_update: u64,
}

pub open spec fn pending_view(p: Seq<PendingPayload>) -> Seq<(u32, Seq<u8>)> {
    p.map_values(|e: PendingPayload| (e.packet_id, e.data@))
}

impl View for PartialFrame {
    type V = PartialView;

    open spec fn view(&self) -> PartialView {
        PartialView {
            frame_id: self.frame_id,
            packet_id: self.packet_id,
            timestamp: self.timestamp,
            payload_type: self.payload_type,
            pixel_format: self.pixel_format,
            width: self.width,
            height: self.height,
            offset: self.offset as nat,
            data: self.data@,
            pending: pending_view(self.pending_payloads@),
            trailer_packet_id: self.trailer_packet_id,
            last_update: self.last_update,
        }
    }
}

/// The index of the pending payload with packet id `id`, if any.
pub open spec fn pending_index(p: Seq<(u32, Seq<u8>)>, id: u32) -> Option<int>
    decreases p.len(),
{
    if p.len() == 0 {
        None
    } else if p.last().0 == id {
        Some(p.len() - 1)
    } else {
        pending_index(p.drop_last(), id)
    }
}

proof fn lemma_pending_index(p: Seq<(u32, Seq<u8>)>, id: u32)
    ensures
        pending_index(p, id) matches Some(i) ==> 0 <= i < p.len() && p[i].0 == id,
        pending_index(p, id) is None ==> forall|j: int| 0 <= j < p.len() ==> p[j].0 != id,
    decreases p.len(),
{
    if p.len() > 0 && p.last().0 != id {
        lemma_pending_index(p.drop_last(), id);
        assert forall|j: int| 0 <= j < p.len() - 1 implies p[j] == p.drop_last()[j] by {}
    }
}

/// The total size of the pending payloads.
pub open spec fn pending_bytes(p: Seq<(u32, Seq<u8>)>) -> nat
    decreases p.len(),
{
    if p.len() == 0 {
        0
    } else {
        pending_bytes(p.drop_last()) + p.last().1.len()
    }
}

/// A partial frame is well formed when its write offset lies within its buffer and no packet
/// id is pending twice.
pub open spec fn partial_wf(f: PartialView) -> bool {
    &&& f.offset <= f.data.len()
    &&& f.data.len() <= usize::MAX
    &&& forall|i: int, j: int|
        0 <= i < j < f.pending.len() ==> #[trigger] f.pending[i].0 != #[trigger] f.pending[j].0
}

/// A fresh partial frame for a leader packet.
pub open spec fn spec_fresh(
    frame_id: u32,
    packet_id: u32,
    timestamp: u64,
    payload_type: PayloadType,
    pixel_format: PixelFormat,
    width: u32,
    height: u32,
    len: nat,
    now: u64,
) -> PartialView {
    PartialView {
        frame_id,
        packet_id,
        timestamp,
        payload_type,
        pixel_format,
        width,
        height,
        offset: 0,
        data: Seq::new(len, |i: int| 0u8),
        pending: seq![],
        trailer_packet_id: None,
        last_update: now,
    }
}

/// Writes `chunk` at the write offset and makes `id` the last contiguous packet id; `None`
/// when the chunk does not fit in the frame buffer.
pub open spec fn spec_append(f: PartialView, id: u32, chunk: Seq<u8>) -> Option<PartialView> {
    if f.offset + chunk.len() > f.data.len() {
        None
    } else {
        Some(
            PartialView {
                data: f.data.take(f.offset as int) + chunk + f.data.skip(
                    (f.offset + chunk.len()) as int,
                ),
                offset: f.offset + chunk.len(),
                packet_id: id,
                ..f
            },
        )
    }
}

/// Appends the pending payloads that have become contiguous, in packet-id order.
pub open spec fn spec_flush(f: PartialView) -> Result<PartialView, FrameDropReason>
    decreases f.pending.len(),
{
    if f.packet_id == u32::MAX {
        Err(FrameDropReason::PacketAfterTrailer)
    } else {
        let next = (f.packet_id + 1) as u32;
        match pending_index(f.pending, next) {
            None => Ok(f),
            Some(i) => {
                if 0 <= i < f.pending.len() {
                    let chunk = f.pending[i].1;
                    let f1 = PartialView { pending: f.pending.remove(i), ..f };
                    match spec_append(f1, next, chunk) {
                        None => Err(FrameDropReason::PayloadOverflow),
                        Some(f2) => spec_flush(f2),
                    }
                } else {
                    Ok(f)
                }
            },
        }
    }
}

/// Where a frame stands after its contiguous payloads are appended.
pub enum Progress {
    Pending(PartialView),
    Complete(FrameView),
    Dropped(FrameDropReason),
}

/// A frame is complete once the trailer directly follows the last contiguous payload and the
/// buffer is full; a full packet range with a short buffer is dropped.
pub open spec fn spec_progress(f: PartialView) -> Progress {
    match spec_flush(f) {
        Err(r) => Progress::Dropped(r),
        Ok(g) => match g.trailer_packet_id {
            None => Progress::Pending(g),
            Some(t) => if g.packet_id == u32::MAX || g.packet_id + 1 != t {
                Progress::Pending(g)
            } else if g.offset != g.data.len() {
                Progress::Dropped(FrameDropReason::ShortFrame)
            } else {
                Progress::Complete(
                    FrameView {
                        frame_id: g.frame_id,
                        timestamp: g.timestamp,
                        width: g.width,
                        height: g.height,
                        pixel_format: g.pixel_format,
                        payload_type: g.payload_type,
                        data: g.data,
                    },
                )
            },
        },
    }
}

/// Which counters an ingest step bumps besides the packet counter.
pub struct StatsDelta {
    pub anomaly: bool,
    pub drop: bool,
    pub frame: bool,
}

pub open spec fn no_delta() -> StatsDelta {
    StatsDelta { anomaly: false, drop: false, frame: false }
}

pub open spec fn anomaly_only() -> StatsDelta {
    StatsDelta { anomaly: true, drop: false, frame: false }
}

pub open spec fn anomaly_drop() -> StatsDelta {
    StatsDelta { anomaly: true, drop: true, frame: false }
}

pub open spec fn frame_only() -> StatsDelta {
    StatsDelta { anomaly: false, drop: false, frame: true }
}

/// The outcome of one step: the new frames, the result and the counters to bump.
pub struct Step {
    pub frames: Map<u32, PartialView>,
    pub result: Result<Option<EventView>, AssembleError>,
    pub delta: StatsDelta,
}

pub open spec fn dropped(
    frames: Map<u32, PartialView>,
    frame_id: u32,
    reason: FrameDropReason,
) -> Step {
    Step {
        frames,
        result: Ok(Some(EventView::Dropped { frame_id, reason })),
        delta: anomaly_drop(),
    }
}

pub open spec fn kept(frames: Map<u32, PartialView>, delta: StatsDelta) -> Step {
    Step { frames, result: Ok(None), delta }
}

/// Files a frame again or hands it out, depending on its progress.
pub open spec fn spec_reconcile(frames: Map<u32, PartialView>, key: u32, f: PartialView) -> Step {
    match spec_progress(f) {
        Progress::Pending(g) => kept(frames.insert(key, g), no_delta()),
        Progress::Complete(v) => Step {
            frames: frames.remove(key),
            result: Ok(Some(EventView::Complete(v))),
            delta: frame_only(),
        },
        Progress::Dropped(r) => dropped(frames.remove(key), key, r),
    }
}

/// What ingesting one packet at time `now` does to the frames under assembly.
pub open spec fn spec_ingest(frames: Map<u32, PartialView>, packet: PacketView, now: u64) -> Step {
    match packet {
        PacketView::Leader {
            frame_id,
            packet_id,
            timestamp,
            payload_type,
            pixel_format,
            width,
            height,
        } => match spec_payload_len(pixel_format, width, height) {
            None => Step {
                frames,
                result: Err(AssembleError::UnsupportedPayload(payload_type)),
                delta: no_delta(),
            },
            Some(len) => {
                let fresh = spec_fresh(
                    frame_id,
                    packet_id,
                    timestamp,
                    payload_type,
                    pixel_format,
                    width,
                    height,
                    len,
                    now,
                );
                if frames.contains_key(frame_id) {
                    dropped(frames.insert(frame_id, fresh), frame_id, FrameDropReason::DuplicateLeader)
                } else {
                    kept(frames.insert(frame_id, fresh), no_delta())
                }
            },
        },
        PacketView::Payload { frame_id, packet_id, data } => {
            if !frames.contains_key(frame_id) {
                dropped(frames, frame_id, FrameDropReason::PayloadBeforeLeader)
            } else {
                let f = frames[frame_id];
                let touched = PartialView { last_update: now, ..f };
                if packet_id <= f.packet_id || pending_index(f.pending, packet_id) is Some {
                    kept(frames.insert(frame_id, touched), anomaly_only())
                } else if f.trailer_packet_id matches Some(t) && packet_id >= t {
                    dropped(frames.remove(frame_id), frame_id, FrameDropReason::PacketAfterTrailer)
                } else if data.len() == 0 {
                    kept(frames.insert(frame_id, touched), anomaly_only())
                } else if f.packet_id + 1 == packet_id {
                    match spec_append(f, packet_id, data) {
                        None => dropped(
                            frames.remove(frame_id),
                            frame_id,
                            FrameDropReason::PayloadOverflow,
                        ),
                        Some(g) => spec_reconcile(
                            frames.remove(frame_id),
                            frame_id,
                            PartialView { last_update: now, ..g },
                        ),
                    }
                } else if pending_bytes(f.pending) + data.len() > f.data.len() - f.offset {
                    dropped(frames.remove(frame_id), frame_id, FrameDropReason::PayloadOverflow)
                } else {
                    spec_reconcile(
                        frames.remove(frame_id),
                        frame_id,
                        PartialView {
                            pending: f.pending.push((packet_id, data)),
                            last_update: now,
                            ..f
                        },
                    )
                }
            }
        },
        PacketView::Trailer { frame_id, packet_id } => {
            if !frames.contains_key(frame_id) {
                dropped(frames, frame_id, FrameDropReason::TrailerBeforeLeader)
            } else {
                let f = frames[frame_id];
                if packet_id <= f.packet_id {
                    dropped(frames.remove(frame_id), frame_id, FrameDropReason::ShortFrame)
                } else {
                    match f.trailer_packet_id {
                        Some(t) => if t == packet_id {
                            kept(
                                frames.insert(frame_id, PartialView { last_update: now, ..f }),
                                anomaly_only(),
                            )
                        } else {
                            dropped(
                                frames.remove(frame_id),
                                frame_id,
                                FrameDropReason::PacketAfterTrailer,
                            )
                        },
                        None => spec_reconcile(
                            frames.remove(frame_id),
                            frame_id,
                            PartialView {
                                trailer_packet_id: Some(packet_id),
                                last_update: now,
                                ..f
                            },
                        ),
                    }
                }
            }
        },
    }
}

/// The counters after one ingest step: the packet counter always, the others as the step says.
pub open spec fn apply_delta(s: StatsView, d: StatsDelta) -> StatsView {
    StatsView {
        frames: if d.frame {
            bump(s.frames)
        } else {
            s.frames
        },
        dropped_frames: if d.drop {
            bump(s.dropped_frames)
        } else {
            s.dropped_frames
        },
        packets: bump(s.packets),
        packet_anomalies: if d.anomaly {
            bump(s.packet_anomalies)
        } else {
            s.packet_anomalies
        },
    }
}

/// The result of an ingest call, as a view.
pub open spec fn result_view(r: Result<Option<FrameEvent>, AssembleError>) -> Result<
    Option<EventView>,
    AssembleError,
> {
    match r {
        Ok(Some(e)) => Ok(Some(e@)),
        Ok(None) => Ok(None),
        Err(e) => Err(e),
    }
}

/// Leaders that the assembler can size without overflowing a `usize`.
pub open spec fn packet_sizable(p: PacketView) -> bool {
    p matches PacketView::Leader { width, height, pixel_format, .. } ==> width * height
        * spec_bytes_per_pixel(pixel_format) <= usize::MAX
}

/// Reassembles frames from compatibility packets, tolerating reordering within a frame.
pub struct FrameAssembler {
    timeout: u64,
    frames: HashMap<u32, PartialFrame>,
}

impl FrameAssembler {
    /// The frames under assembly, by frame id.
    pub closed spec fn spec_frames(&self) -> Map<u32, PartialView> {
        self.frames@.map_values(|f: PartialFrame| f@)
    }

    /// The timeout, in nanoseconds, after which an idle frame is given up.
    pub closed spec fn spec_timeout(&self) -> u64 {
        self.timeout
    }

    /// Every frame is filed under its own id and is well formed.
    pub closed spec fn wf(&self) -> bool {
        forall|k: u32|
            #[trigger] self.frames@.contains_key(k) ==> self.frames@[k].frame_id == k
                && partial_wf(self.frames@[k]@)
    }

    /// An assembler with no frame in progress.
    pub fn new(timeout: u64) -> (r: FrameAssembler)
        ensures
            r.wf(),
            r.spec_frames() == Map::<u32, PartialView>::empty(),
            r.spec_timeout() == timeout,
    {
        let r = FrameAssembler { timeout, frames: HashMap::new() };
        assert(r.spec_frames() =~= Map::<u32, PartialView>::empty());
        r
    }
}


/// A frame's progress, with owned buffers.
pub enum FrameProgress {
    Pending(PartialFrame),
    Complete(VideoFrame),
    Dropped(FrameDropReason),
}

/// The index of the pending payload with packet id `id`.
fn find_pending(pending: &Vec<PendingPayload>, id: u32) -> (r: Option<usize>)
    ensures
        match pending_index(pending_view(pending@), id) {
            Some(i) => r == Some(i as usize),
            None => r is None,
        },
        r matches Some(i) ==> i < pending@.len() && pending@[i as int].packet_id == id,
{
    proof {
        lemma_pending_index(pending_view(pending@), id);
    }
    let ghost pv = pending_view(pending@);
    let mut i = pending.len();
    assert(pv.take(i as int) =~= pv);
    while i > 0
        invariant
            i <= pending@.len(),
            pv == pending_view(pending@),
            pending_index(pv, id) == pending_index(pv.take(i as int), id),
        decreases i,
    {
        assert(pv.take(i as int).last() == pv[i - 1]);
        if pending[i - 1].packet_id == id {
            return Some(i - 1);
        }
        assert(pv.take(i as int).drop_last() =~= pv.take(i - 1));
        i = i - 1;
    }
    None
}

/// The total size of the pending payloads, saturating at `usize::MAX`.
fn pending_payload_bytes(frame: &PartialFrame) -> (r: usize)
    ensures
        r == (if pending_bytes(frame@.pending) <= usize::MAX {
            pending_bytes(frame@.pending)
        } else {
            usize::MAX as nat
        }),
{
    let ghost pv = frame@.pending;
    let n = frame.pending_payloads.len();
    let mut total: usize = 0;
    let mut i: usize = 0;
    assert(pv.take(0) =~= Seq::<(u32, Seq<u8>)>::empty());
    while i < n
        invariant
            n == pv.len(),
            pv == pending_view(frame.pending_payloads@),
            i <= n,
            total == (if pending_bytes(pv.take(i as int)) <= usize::MAX {
                pending_bytes(pv.take(i as int))
            } else {
                usize::MAX as nat
            }),
        decreases n - i,
    {
        let len = frame.pending_payloads[i].data.len();
        assert(pv.take(i + 1).drop_last() =~= pv.take(i as int));
        assert(pv.take(i + 1).last().1.len() == len);
        total = total.saturating_add(len);
        i = i + 1;
    }
    assert(pv.take(n as int) =~= pv);
    total
}

/// Whether buffering `next_payload_len` more bytes would exceed the room left in the frame.
fn buffered_payloads_overflow(frame: &PartialFrame, next_payload_len: usize) -> (r: bool)
    requires
        partial_wf(frame@),
        next_payload_len > 0,
    ensures
        r == (pending_bytes(frame@.pending) + next_payload_len > frame@.data.len() - frame@.offset),
{
    let remaining = frame.data.len().saturating_sub(frame.offset);
    let pending = pending_payload_bytes(frame);
    match pending.checked_add(next_payload_len) {
        None => true,
        Some(buffered) => {
            assert(pending_bytes(frame@.pending) <= usize::MAX);
            buffered > remaining
        },
    }
}

/// Writes `data` at the write offset; refused when it does not fit.
fn append_payload_bytes(frame: &mut PartialFrame, packet_id: u32, data: &[u8]) -> (r: Result<
    (),
    FrameDropReason,
>)
    requires
        partial_wf(old(frame)@),
    ensures
        match spec_append(old(frame)@, packet_id, data@) {
            None => r == Err::<(), FrameDropReason>(FrameDropReason::PayloadOverflow),
            Some(g) => r is Ok && final(frame)@ == g && partial_wf(g),
        },
{
    if data.len() > frame.data.len() - frame.offset {
        return Err(FrameDropReason::PayloadOverflow);
    }
    let ghost old_data = frame.data@;
    let start = frame.offset;
    let n = data.len();
    let mut i: usize = 0;
    while i < n
        invariant
            start == frame.offset,
            n == data@.len(),
            start + n <= old_data.len(),
            old_data.len() <= usize::MAX,
            i <= n,
            frame.data@.len() == old_data.len(),
            frame.data@ == old_data.take(start as int) + data@.take(i as int) + old_data.skip(
                start + i,
            ),
            frame.pending_payloads == old(frame).pending_payloads,
            frame.packet_id == old(frame).packet_id,
            frame.frame_id == old(frame).frame_id,
            frame.timestamp == old(frame).timestamp,
            frame.payload_type == old(frame).payload_type,
            frame.pixel_format == old(frame).pixel_format,
            frame.width == old(frame).width,
            frame.height == old(frame).height,
            frame.trailer_packet_id == old(frame).trailer_packet_id,
            frame.last_update == old(frame).last_update,
        decreases n - i,
    {
        frame.data.set(start + i, data[i]);
        i = i + 1;
        assert(frame.data@ =~= old_data.take(start as int) + data@.take(i as int) + old_data.skip(
            start + i,
        ));
    }
    assert(data@.take(n as int) =~= data@);
    frame.offset = start + n;
    frame.packet_id = packet_id;
    Ok(())
}

/// Appends the pending payloads that have become contiguous.
fn flush_pending_payloads(frame: &mut PartialFrame) -> (r: Result<(), FrameDropReason>)
    requires
        partial_wf(old(frame)@),
    ensures
        match spec_flush(old(frame)@) {
            Ok(g) => r is Ok && final(frame)@ == g && partial_wf(g),
            Err(e) => r == Err::<(), FrameDropReason>(e),
        },
{
    loop
        invariant
            partial_wf(frame@),
            spec_flush(frame@) == spec_flush(old(frame)@),
        decreases frame.pending_payloads.len(),
    {
        if frame.packet_id == u32::MAX {
            return Err(FrameDropReason::PacketAfterTrailer);
        }
        let next = frame.packet_id + 1;
        match find_pending(&frame.pending_payloads, next) {
            None => {
                return Ok(());
            },
            Some(i) => {
                let ghost f = frame@;
                let ghost f1 = PartialView { pending: f.pending.remove(i as int), ..f };
                let ghost chunk_v = f.pending[i as int].1;
                proof {
                    lemma_pending_index(f.pending, next);
                }
                assert(pending_index(f.pending, next) == Some(i as int));
                assert(spec_flush(f) == match spec_append(f1, next, chunk_v) {
                    None => Err(FrameDropReason::PayloadOverflow),
                    Some(f2) => spec_flush(f2),
                });
                let chunk = frame.pending_payloads.remove(i);
                proof {
                    assert(pending_view(frame.pending_payloads@) =~= f.pending.remove(i as int));
                    assert(chunk.data@ == chunk_v);
                    assert(frame@ == f1);
                    assert forall|a: int, b: int|
                        0 <= a < b < frame@.pending.len() implies #[trigger] frame@.pending[a].0
                        != #[trigger] frame@.pending[b].0 by {
                        let a0 = if a < i { a } else { a + 1 };
                        let b0 = if b < i { b } else { b + 1 };
                        assert(frame@.pending[a] == f.pending[a0]);
                        assert(frame@.pending[b] == f.pending[b0]);
                    }
                }
                match append_payload_bytes(frame, next, chunk.data.as_slice()) {
                    Err(e) => {
                        return Err(e);
                    },
                    Ok(()) => {},
                }
            },
        }
    }
}

fn to_video_frame(frame: PartialFrame) -> (r: VideoFrame)
    ensures
        r@ == (FrameView {
            frame_id: frame.frame_id,
            timestamp: frame.timestamp,
            width: frame.width,
            height: frame.height,
            pixel_format: frame.pixel_format,
            payload_type: frame.payload_type,
            data: frame.data@,
        }),
{
    VideoFrame {
        frame_id: frame.frame_id,
        timestamp: frame.timestamp,
        width: frame.width,
        height: frame.height,
        pixel_format: frame.pixel_format,
        payload_type: frame.payload_type,
        data: frame.data,
    }
}

/// Appends what is contiguous and decides whether the frame is pending, complete or dropped.
fn progress_frame(frame: PartialFrame) -> (r: FrameProgress)
    requires
        partial_wf(frame@),
    ensures
        match spec_progress(frame@) {
            Progress::Pending(g) => r matches FrameProgress::Pending(h) && h@ == g && partial_wf(g),
            Progress::Complete(v) => r matches FrameProgress::Complete(h) && h@ == v,
            Progress::Dropped(e) => r matches FrameProgress::Dropped(d) && d == e,
        },
{
    let mut frame = frame;
    if let Err(reason) = flush_pending_payloads(&mut frame) {
        return FrameProgress::Dropped(reason);
    }
    let trailer_packet_id = match frame.trailer_packet_id {
        None => {
            return FrameProgress::Pending(frame);
        },
        Some(t) => t,
    };
    if frame.packet_id == u32::MAX || frame.packet_id + 1 != trailer_packet_id {
        return FrameProgress::Pending(frame);
    }
    if frame.offset != frame.data.len() {
        return FrameProgress::Dropped(FrameDropReason::ShortFrame);
    }
    FrameProgress::Complete(to_video_frame(frame))
}

fn build_partial_frame(
    frame_id: u32,
    packet_id: u32,
    timestamp: u64,
    payload_type: PayloadType,
    pixel_format: PixelFormat,
    width: u32,
    height: u32,
    now: u64,
) -> (r: Result<PartialFrame, AssembleError>)
    requires
        width * height * spec_bytes_per_pixel(pixel_format) <= usize::MAX,
    ensures
        match spec_payload_len(pixel_format, width, height) {
            None => r == Err::<PartialFrame, AssembleError>(
                AssembleError::UnsupportedPayload(payload_type),
            ),
            Some(len) => r matches Ok(f) && f@ == spec_fresh(
                frame_id,
                packet_id,
                timestamp,
                payload_type,
                pixel_format,
                width,
                height,
                len,
                now,
            ) && partial_wf(f@),
        },
{
    let len = match pixel_format.payload_len(width, height) {
        Ok(len) => len,
        Err(_) => {
            return Err(AssembleError::UnsupportedPayload(payload_type));
        },
    };
    let mut data: Vec<u8> = Vec::new();
    let mut i: usize = 0;
    while i < len
        invariant
            i <= len,
            data@ == Seq::new(i as nat, |k: int| 0u8),
        decreases len - i,
    {
        data.push(0);
        i = i + 1;
        assert(data@ =~= Seq::new(i as nat, |k: int| 0u8));
    }
    let f = PartialFrame {
        frame_id,
        packet_id,
        timestamp,
        payload_type,
        pixel_format,
        width,
        height,
        offset: 0,
        data,
        pending_payloads: Vec::new(),
        trailer_packet_id: None,
        last_update: now,
    };
    assert(f@.pending =~= Seq::<(u32, Seq<u8>)>::empty());
    Ok(f)
}


proof fn lemma_flush_keeps_id(f: PartialView)
    ensures
        spec_flush(f) matches Ok(g) ==> g.frame_id == f.frame_id,
    decreases f.pending.len(),
{
    if f.packet_id != u32::MAX {
        let next = (f.packet_id + 1) as u32;
        if let Some(i) = pending_index(f.pending, next) {
            if 0 <= i < f.pending.len() {
                let f1 = PartialView { pending: f.pending.remove(i), ..f };
                if let Some(f2) = spec_append(f1, next, f.pending[i].1) {
                    lemma_flush_keeps_id(f2);
                }
            }
        }
    }
}

/// The counters after a step, not counting the packet itself.
pub open spec fn apply_counts(s: StatsView, d: StatsDelta) -> StatsView {
    StatsView {
        frames: if d.frame {
            bump(s.frames)
        } else {
            s.frames
        },
        dropped_frames: if d.drop {
            bump(s.dropped_frames)
        } else {
            s.dropped_frames
        },
        packets: s.packets,
        packet_anomalies: if d.anomaly {
            bump(s.packet_anomalies)
        } else {
            s.packet_anomalies
        },
    }
}

fn record_drop_event(stats: &mut StreamStats, frame_id: u32, reason: FrameDropReason) -> (r: Option<
    FrameEvent,
>)
    ensures
        final(stats)@ == apply_counts(old(stats)@, anomaly_drop()),
        r matches Some(e) && e@ == (EventView::Dropped { frame_id, reason }),
{
    stats.record_packet_anomaly();
    stats.record_drop();
    Some(FrameEvent::Dropped { frame_id, reason })
}

impl FrameAssembler {
    /// Files a frame again, or hands it out as complete or dropped.
    fn reconcile_frame(&mut self, key: u32, frame: PartialFrame, stats: &mut StreamStats) -> (r:
        Option<FrameEvent>)
        requires
            old(self).wf(),
            !old(self).spec_frames().contains_key(key),
            frame.frame_id == key,
            partial_wf(frame@),
        ensures
            final(self).wf(),
            final(self).spec_timeout() == old(self).spec_timeout(),
            final(self).spec_frames() == spec_reconcile(old(self).spec_frames(), key, frame@).frames,
            result_view(Ok(r)) == spec_reconcile(old(self).spec_frames(), key, frame@).result,
            final(stats)@ == apply_counts(
                old(stats)@,
                spec_reconcile(old(self).spec_frames(), key, frame@).delta,
            ),
    {
        proof {
            lemma_flush_keeps_id(frame@);
        }
        let ghost old_frames = self.spec_frames();
        match progress_frame(frame) {
            FrameProgress::Pending(f) => {
                self.frames.insert(key, f);
                assert(self.spec_frames() =~= old_frames.insert(key, f@));
                None
            },
            FrameProgress::Complete(v) => {
                stats.record_frame();
                assert(old_frames.remove(key) =~= old_frames);
                assert(self.frames@.remove(key) =~= self.frames@);
                Some(FrameEvent::Complete(v))
            },
            FrameProgress::Dropped(reason) => {
                assert(old_frames.remove(key) =~= old_frames);
                record_drop_event(stats, key, reason)
            },
        }
    }

    /// Takes the frame filed under `key` out of the assembler.
    fn take_frame(&mut self, key: u32) -> (r: Option<PartialFrame>)
        requires
            old(self).wf(),
        ensures
            final(self).wf(),
            final(self).spec_timeout() == old(self).spec_timeout(),
            final(self).spec_frames() == old(self).spec_frames().remove(key),
            match r {
                Some(f) => old(self).spec_frames().contains_key(key) && f@ == old(
                    self,
                ).spec_frames()[key] && f.frame_id == key && partial_wf(f@),
                None => !old(self).spec_frames().contains_key(key),
            },
    {
        let r = self.frames.remove(&key);
        assert(self.spec_frames() =~= old(self).spec_frames().remove(key));
        r
    }

    /// Files `frame` under its id.
    fn put_frame(&mut self, frame: PartialFrame)
        requires
            old(self).wf(),
            partial_wf(frame@),
        ensures
            final(self).wf(),
            final(self).spec_timeout() == old(self).spec_timeout(),
            final(self).spec_frames() == old(self).spec_frames().insert(frame.frame_id, frame@),
    {
        let ghost f = frame@;
        let key = frame.frame_id;
        self.frames.insert(key, frame);
        assert(self.spec_frames() =~= old(self).spec_frames().insert(key, f));
    }

    /// Ingests one packet received at time `now` (nanoseconds on the caller's monotonic clock).
    pub fn ingest(&mut self, packet: CompatPacket, now: u64, stats: &mut StreamStats) -> (r: Result<
        Option<FrameEvent>,
        AssembleError,
    >)
        requires
            old(self).wf(),
            packet_sizable(packet@),
        ensures
            final(self).wf(),
            final(self).spec_timeout() == old(self).spec_timeout(),
            final(self).spec_frames() == spec_ingest(old(self).spec_frames(), packet@, now).frames,
            result_view(r) == spec_ingest(old(self).spec_frames(), packet@, now).result,
            final(stats)@ == apply_delta(
                old(stats)@,
                spec_ingest(old(self).spec_frames(), packet@, now).delta,
            ),
    {
        self.ingest_view(&packet, now, stats)
    }

    /// Ingests one packet, borrowed, received at time `now`.
    pub fn ingest_view(&mut self, packet: &CompatPacket, now: u64, stats: &mut StreamStats) -> (r:
        Result<Option<FrameEvent>, AssembleError>)
        requires
            old(self).wf(),
            packet_sizable(packet@),
        ensures
            final(self).wf(),
            final(self).spec_timeout() == old(self).spec_timeout(),
            final(self).spec_frames() == spec_ingest(old(self).spec_frames(), packet@, now).frames,
            result_view(r) == spec_ingest(old(self).spec_frames(), packet@, now).result,
            final(stats)@ == apply_delta(
                old(stats)@,
                spec_ingest(old(self).spec_frames(), packet@, now).delta,
            ),
    {
        stats.record_packet();
        let ghost frames0 = self.spec_frames();
        let ghost stats0 = stats@;
        match packet {
            CompatPacket::Leader {
                frame_id,
                packet_id,
                timestamp,
                payload_type,
                pixel_format,
                width,
                height,
            } => {
                let frame = match build_partial_frame(
                    *frame_id,
                    *packet_id,
                    *timestamp,
                    *payload_type,
                    *pixel_format,
                    *width,
                    *height,
                    now,
                ) {
                    Ok(f) => f,
                    Err(e) => {
                        return Err(e);
                    },
                };
                let existed = self.frames.contains_key(frame_id);
                self.put_frame(frame);
                if existed {
                    Ok(record_drop_event(stats, *frame_id, FrameDropReason::DuplicateLeader))
                } else {
                    Ok(None)
                }
            },
            CompatPacket::Payload { frame_id, packet_id, data } => {
                let frame_id = *frame_id;
                let packet_id = *packet_id;
                let mut frame = match self.take_frame(frame_id) {
                    Some(f) => f,
                    None => {
                        return Ok(
                            record_drop_event(stats, frame_id, FrameDropReason::PayloadBeforeLeader),
                        );
                    },
                };
                let ghost f0 = frame@;
                if packet_id <= frame.packet_id || find_pending(
                    &frame.pending_payloads,
                    packet_id,
                ).is_some() {
                    stats.record_packet_anomaly();
                    frame.last_update = now;
                    self.put_frame(frame);
                    assert(self.spec_frames() =~= frames0.insert(
                        frame_id,
                        PartialView { last_update: now, ..f0 },
                    ));
                    return Ok(None);
                }
                if let Some(trailer_packet_id) = frame.trailer_packet_id {
                    if packet_id >= trailer_packet_id {
                        return Ok(
                            record_drop_event(stats, frame_id, FrameDropReason::PacketAfterTrailer),
                        );
                    }
                }
                if data.len() == 0 {
                    stats.record_packet_anomaly();
                    frame.last_update = now;
                    self.put_frame(frame);
                    assert(self.spec_frames() =~= frames0.insert(
                        frame_id,
                        PartialView { last_update: now, ..f0 },
                    ));
                    return Ok(None);
                }
                if frame.packet_id + 1 == packet_id {
                    if let Err(reason) = append_payload_bytes(&mut frame, packet_id, data.as_slice()) {
                        return Ok(record_drop_event(stats, frame_id, reason));
                    }
                } else {
                    if buffered_payloads_overflow(&frame, data.len()) {
                        return Ok(
                            record_drop_event(stats, frame_id, FrameDropReason::PayloadOverflow),
                        );
                    }
                    let copy = copy_bytes(data);
                    let ghost pv0 = frame@.pending;
                    frame.pending_payloads.push(PendingPayload { packet_id, data: copy });
                    proof {
                        assert(frame@.pending =~= pv0.push((packet_id, data@)));
                        lemma_pending_index(pv0, packet_id);
                        assert forall|a: int, b: int|
                            0 <= a < b < frame@.pending.len() implies #[trigger] frame@.pending[a].0
                            != #[trigger] frame@.pending[b].0 by {
                            if b == pv0.len() {
                                assert(frame@.pending[a] == pv0[a]);
                            } else {
                                assert(frame@.pending[a] == pv0[a]);
                                assert(frame@.pending[b] == pv0[b]);
                            }
                        }
                    }
                }
                frame.last_update = now;
                Ok(self.reconcile_frame(frame_id, frame, stats))
            },
            CompatPacket::Trailer { frame_id, packet_id } => {
                let frame_id = *frame_id;
                let packet_id = *packet_id;
                let mut frame = match self.take_frame(frame_id) {
                    Some(f) => f,
                    None => {
                        return Ok(
                            record_drop_event(stats, frame_id, FrameDropReason::TrailerBeforeLeader),
                        );
                    },
                };
                let ghost f0 = frame@;
                if packet_id <= frame.packet_id {
                    return Ok(record_drop_event(stats, frame_id, FrameDropReason::ShortFrame));
                }
                match frame.trailer_packet_id {
                    Some(existing) => {
                        if existing == packet_id {
                            stats.record_packet_anomaly();
                            frame.last_update = now;
                            self.put_frame(frame);
                            assert(self.spec_frames() =~= frames0.insert(
                                frame_id,
                                PartialView { last_update: now, ..f0 },
                            ));
                            Ok(None)
                        } else {
                            Ok(record_drop_event(stats, frame_id, FrameDropReason::PacketAfterTrailer))
                        }
                    },
                    None => {
                        frame.trailer_packet_id = Some(packet_id);
                        frame.last_update = now;
                        Ok(self.reconcile_frame(frame_id, frame, stats))
                    },
                }
            },
        }
    }
}

/// A copy of a byte buffer.
pub fn copy_bytes(data: &Vec<u8>) -> (r: Vec<u8>)
    ensures
        r@ == data@,
{
    let mut out: Vec<u8> = Vec::new();
    crate::compat_stream::extend_from_range(&mut out, data.as_slice(), 0, data.len());
    assert(data@.subrange(0, data@.len() as int) =~= data@);
    out
}

} // verus!

verus! {

fn key_list(m: &HashMap<u32, PartialFrame>) -> (r: Vec<u32>)
    ensures
        r@.to_set() == m@.dom(),
        r@.no_duplicates(),
{
    let mut keys: Vec<u32> = Vec::new();
    for k in it: m.keys()
        invariant
            keys@.len() == it.index(),
            forall|i: int| 0 <= i < keys@.len() ==> keys@[i] == *it.seq()[i],
    {
        keys.push(*k);
    }
    assert(keys@ =~= vstd::std_specs::iter::IteratorSpec::remaining(&vstd::std_specs::hash::spec_keys_iter(m)).unref());
    keys
}

} // verus!

verus! {

/// Whether a frame last updated at `last_update` has been idle for `timeout` by `now`.
pub open spec fn timed_out(f: PartialView, now: u64, timeout: u64) -> bool {
    (if now >= f.last_update {
        (now - f.last_update) as nat
    } else {
        0
    }) >= timeout
}

/// `x + n` modulo 2^64.
pub open spec fn bump_n(x: u64, n: nat) -> u64 {
    ((x + n) % 0x1_0000_0000_0000_0000) as u64
}

impl FrameAssembler {
    /// Gives up every frame idle for at least the timeout at time `now`, one `Timeout` drop per
    /// frame. The order of the events is that of the map's walk, which is unspecified.
    pub fn reap_timeouts(&mut self, now: u64, stats: &mut StreamStats) -> (r: Vec<FrameEvent>)
        requires
            old(self).wf(),
        ensures
            final(self).wf(),
            final(self).spec_timeout() == old(self).spec_timeout(),
            final(self).spec_frames() == Map::new(
                |k: u32|
                    old(self).spec_frames().contains_key(k) && !timed_out(
                        old(self).spec_frames()[k],
                        now,
                        old(self).spec_timeout(),
                    ),
                |k: u32| old(self).spec_frames()[k],
            ),
            forall|i: int|
                #![trigger r@[i]]
                0 <= i < r@.len() ==> exists|k: u32|
                    #![trigger old(self).spec_frames()[k]]
                    old(self).spec_frames().contains_key(k) && timed_out(
                        old(self).spec_frames()[k],
                        now,
                        old(self).spec_timeout(),
                    ) && r@[i]@ == (EventView::Dropped {
                        frame_id: k,
                        reason: FrameDropReason::Timeout,
                    }),
            forall|k: u32|
                old(self).spec_frames().contains_key(k) && timed_out(
                    #[trigger] old(self).spec_frames()[k],
                    now,
                    old(self).spec_timeout(),
                ) ==> exists|i: int|
                    0 <= i < r@.len() && r@[i]@ == (EventView::Dropped {
                        frame_id: k,
                        reason: FrameDropReason::Timeout,
                    }),
            forall|i: int, j: int|
                0 <= i < j < r@.len() ==> r@[i]@ != r@[j]@,
            final(stats)@ == (StatsView {
                dropped_frames: bump_n(old(stats)@.dropped_frames, r@.len()),
                packet_anomalies: bump_n(old(stats)@.packet_anomalies, r@.len()),
                ..old(stats)@
            }),
    {
        let keys = key_list(&self.frames);
        let ghost old_frames = self.spec_frames();
        let ghost timeout = self.timeout;
        let mut events: Vec<FrameEvent> = Vec::new();
        let ghost mut ids: Seq<u32> = seq![];
        let ghost mut pos: Seq<int> = seq![];
        let mut j: usize = 0;
        while j < keys.len()
            invariant
                self.wf(),
                self.timeout == timeout,
                timeout == old(self).spec_timeout(),
                old_frames == old(self).spec_frames(),
                keys@.to_set() == old_frames.dom(),
                keys@.no_duplicates(),
                j <= keys@.len(),
                ids.len() == events@.len(),
                pos.len() == ids.len(),
                forall|i: int|
                    0 <= i < ids.len() ==> #[trigger] events@[i]@ == (EventView::Dropped {
                        frame_id: ids[i],
                        reason: FrameDropReason::Timeout,
                    }),
                forall|i: int| 0 <= i < ids.len() ==> 0 <= #[trigger] pos[i] < j,
                forall|i: int| 0 <= i < ids.len() ==> keys@[pos[i]] == #[trigger] ids[i],
                forall|i: int|
                    0 <= i < ids.len() ==> timed_out(old_frames[#[trigger] ids[i]], now, timeout),
                forall|a: int, b: int| 0 <= a < b < ids.len() ==> pos[a] < pos[b],
                forall|t: int|
                    #![trigger keys@[t]]
                    0 <= t < j && timed_out(old_frames[keys@[t]], now, timeout) ==> ids.contains(
                        keys@[t],
                    ),
                self.spec_frames() == Map::new(
                    |k: u32|
                        old_frames.contains_key(k) && !(keys@.subrange(0, j as int).contains(k)
                            && timed_out(old_frames[k], now, timeout)),
                    |k: u32| old_frames[k],
                ),
                stats@ == (StatsView {
                    dropped_frames: bump_n(old(stats)@.dropped_frames, events@.len()),
                    packet_anomalies: bump_n(old(stats)@.packet_anomalies, events@.len()),
                    ..old(stats)@
                }),
            decreases keys@.len() - j,
        {
            let key = keys[j];
            assert(keys@.to_set().contains(key));
            assert(!keys@.subrange(0, j as int).contains(key)) by {
                if keys@.subrange(0, j as int).contains(key) {
                    let t = choose|t: int| 0 <= t < j && keys@.subrange(0, j as int)[t] == key;
                    assert(keys@[t] == keys@[j as int]);
                }
            }
            assert(self.spec_frames().contains_key(key));
            let expired = match self.frames.get(&key) {
                Some(frame) => now.saturating_sub(frame.last_update) >= self.timeout,
                None => false,
            };
            assert(self.spec_frames()[key] == old_frames[key]);
            assert(expired == timed_out(old_frames[key], now, timeout));
            let ghost prefix_next = keys@.subrange(0, j + 1);
            assert(forall|k: u32| prefix_next.contains(k) <==> (keys@.subrange(0, j as int).contains(
                k,
            ) || k == key)) by {
                assert forall|k: u32| prefix_next.contains(k) implies (keys@.subrange(
                    0,
                    j as int,
                ).contains(k) || k == key) by {
                    let t = choose|t: int| 0 <= t < j + 1 && prefix_next[t] == k;
                    if t < j {
                        assert(keys@.subrange(0, j as int)[t] == k);
                    }
                }
                assert forall|k: u32|
                    (keys@.subrange(0, j as int).contains(k) || k == key) implies prefix_next.contains(
                    k,
                ) by {
                    if k == key {
                        assert(prefix_next[j as int] == k);
                    } else {
                        let t = choose|t: int| 0 <= t < j && keys@.subrange(0, j as int)[t] == k;
                        assert(prefix_next[t] == k);
                    }
                }
            }
            if expired {
                let _ = self.take_frame(key);
                stats.record_drop();
                stats.record_packet_anomaly();
                events.push(FrameEvent::Dropped { frame_id: key, reason: FrameDropReason::Timeout });
                proof {
                    let ghost old_ids = ids;
                    ids = ids.push(key);
                    pos = pos.push(j as int);
                    assert(ids[old_ids.len() as int] == key);
                    assert forall|a: int, b: int| 0 <= a < b < ids.len() implies pos[a] < pos[b] by {
                        if b < old_ids.len() {
                            assert(pos[a] == pos.drop_last()[a]);
                        } else {
                            assert(pos.drop_last()[a] == pos[a]);
                        }
                    }
                    assert forall|i: int| 0 <= i < ids.len() implies 0 <= #[trigger] pos[i] < j + 1 by {
                        if i < old_ids.len() {
                            assert(pos.drop_last()[i] == pos[i]);
                        }
                    }
                    assert forall|i: int| 0 <= i < ids.len() implies keys@[pos[i]] == #[trigger] ids[i]
                        && timed_out(old_frames[ids[i]], now, timeout) by {
                        if i < old_ids.len() {
                            assert(old_ids[i] == ids[i]);
                            assert(pos.drop_last()[i] == pos[i]);
                        }
                    }
                    assert forall|t: int|
                        #![trigger keys@[t]]
                        0 <= t < j + 1 && timed_out(old_frames[keys@[t]], now, timeout)
                            implies ids.contains(keys@[t]) by {
                        if t < j {
                            assert(old_ids.contains(keys@[t]));
                            let i = choose|i: int| 0 <= i < old_ids.len() && old_ids[i] == keys@[t];
                            assert(ids[i] == keys@[t]);
                        } else {
                            assert(ids[old_ids.len() as int] == keys@[t]);
                        }
                    }
                    assert(self.spec_frames() =~= Map::new(
                        |k: u32|
                            old_frames.contains_key(k) && !(prefix_next.contains(k) && timed_out(
                                old_frames[k],
                                now,
                                timeout,
                            )),
                        |k: u32| old_frames[k],
                    ));
                    assert(events@[events@.len() - 1]@ == (EventView::Dropped {
                        frame_id: key,
                        reason: FrameDropReason::Timeout,
                    }));
                }
            } else {
                proof {
                    assert forall|t: int|
                        #![trigger keys@[t]]
                        0 <= t < j + 1 && timed_out(old_frames[keys@[t]], now, timeout)
                            implies ids.contains(keys@[t]) by {
                    }
                    assert(self.spec_frames() =~= Map::new(
                        |k: u32|
                            old_frames.contains_key(k) && !(prefix_next.contains(k) && timed_out(
                                old_frames[k],
                                now,
                                timeout,
                            )),
                        |k: u32| old_frames[k],
                    ));
                }
            }
            j = j + 1;
        }
        proof {
            assert(keys@.subrange(0, keys@.len() as int) =~= keys@);
            assert forall|k: u32| keys@.contains(k) <==> old_frames.contains_key(k) by {
                assert(keys@.to_set().contains(k) <==> keys@.contains(k));
            }
            assert(self.spec_frames() =~= Map::new(
                |k: u32| old_frames.contains_key(k) && !timed_out(old_frames[k], now, timeout),
                |k: u32| old_frames[k],
            ));
            assert forall|i: int|
                #![trigger events@[i]]
                0 <= i < events@.len() implies exists|k: u32|
                #![trigger old_frames[k]]
                old_frames.contains_key(k) && timed_out(old_frames[k], now, timeout)
                    && events@[i]@ == (EventView::Dropped {
                    frame_id: k,
                    reason: FrameDropReason::Timeout,
                }) by {
                let k = ids[i];
                assert(keys@[pos[i]] == k);
                assert(keys@.contains(k));
                assert(old_frames.contains_key(k));
                assert(timed_out(old_frames[k], now, timeout));
            }
            assert forall|k: u32|
                old_frames.contains_key(k) && timed_out(
                    #[trigger] old_frames[k],
                    now,
                    timeout,
                ) implies exists|i: int|
                0 <= i < events@.len() && events@[i]@ == (EventView::Dropped {
                    frame_id: k,
                    reason: FrameDropReason::Timeout,
                }) by {
                assert(keys@.contains(k));
                let t = choose|t: int| 0 <= t < keys@.len() && keys@[t] == k;
                assert(ids.contains(keys@[t]));
                let i = choose|i: int| 0 <= i < ids.len() && ids[i] == k;
                assert(events@[i]@ == (EventView::Dropped {
                    frame_id: k,
                    reason: FrameDropReason::Timeout,
                }));
            }
            assert forall|a: int, b: int| 0 <= a < b < events@.len() implies events@[a]@
                != events@[b]@ by {
                assert(ids[a] == keys@[pos[a]]);
                assert(ids[b] == keys@[pos[b]]);
                assert(pos[a] < pos[b]);
            }
        }
        events
    }
}

} // verus!
