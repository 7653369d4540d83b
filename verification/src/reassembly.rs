use vstd::prelude::*;

use crate::assembler::{
    pending_bytes, pending_index, spec_append, spec_flush, spec_fresh, spec_ingest, AssembleError,
    EventView, FrameDropReason, PartialView,
};
use crate::compat_stream::{
    lemma_chunks_rejoin, lemma_packet_round_trip, spec_chunks, spec_frame_packets, spec_parse,
    spec_to_bytes, FrameView, PacketView, ParseOutcome,
};
use crate::pixel_format::spec_payload_len;

verus! {
/// The payload packets of frame `frame_id` carrying `chunks`, with packet ids from `first`.
pub open spec fn payload_views(frame_id: u32, first: int, chunks: Seq<Seq<u8>>) -> Seq<PacketView> {
    Seq::new(
        chunks.len(),
        |i: int| PacketView::Payload { frame_id, packet_id: (first + i) as u32, data: chunks[i] },
    )
}

/// The packets a frame is sent as, parsed: its leader, one payload per chunk of at most `k`
/// bytes with packet ids from 1, and its trailer.
pub open spec fn spec_frame_packet_views(f: FrameView, k: nat) -> Seq<PacketView> {
    let chunks = spec_chunks(f.data, k);
    seq![
        PacketView::Leader {
            frame_id: f.frame_id,
            packet_id: 0,
            timestamp: f.timestamp,
            payload_type: f.payload_type,
            pixel_format: f.pixel_format,
            width: f.width,
            height: f.height,
        },
    ] + payload_views(f.frame_id, 1, chunks) + seq![
        PacketView::Trailer { frame_id: f.frame_id, packet_id: (chunks.len() + 1) as u32 },
    ]
}

/// Ingests packets in order at time `now`: the frames after the last one, and what each
/// packet gave, in order.
pub open spec fn spec_ingest_all(frames: Map<u32, PartialView>, packets: Seq<PacketView>, now: u64) -> (
    Map<u32, PartialView>,
    Seq<Result<Option<EventView>, AssembleError>>,
)
    decreases packets.len(),
{
    if packets.len() == 0 {
        (frames, seq![])
    } else {
        let s = spec_ingest(frames, packets[0], now);
        let rest = spec_ingest_all(s.frames, packets.drop_first(), now);
        (rest.0, seq![s.result] + rest.1)
    }
}

/// `n` ingest results that hand nothing out.
pub open spec fn quiet(n: nat) -> Seq<Result<Option<EventView>, AssembleError>> {
    Seq::new(n, |i: int| Ok::<Option<EventView>, AssembleError>(None))
}

/// The bytes of the first `c` chunks.
pub open spec fn prefix_bytes(cs: Seq<Seq<u8>>, c: int) -> Seq<u8> {
    cs.take(c).flatten()
}

/// The payloads that arrived, chunk indexes in arrival order, that lie beyond chunk `c`, as
/// the assembler buffers them: (packet id, bytes).
pub open spec fn pend(cs: Seq<Seq<u8>>, q: Seq<int>, c: int) -> Seq<(u32, Seq<u8>)>
    decreases q.len(),
{
    if q.len() == 0 {
        seq![]
    } else if q.last() > c {
        pend(cs, q.drop_last(), c).push(((q.last() + 1) as u32, cs[q.last()]))
    } else {
        pend(cs, q.drop_last(), c)
    }
}

/// The first chunk index from `d` on that `q` lacks, or `n`.
pub open spec fn next_missing(q: Seq<int>, d: int, n: int) -> int
    decreases n - d,
{
    if d >= n || !q.contains(d) {
        d
    } else {
        next_missing(q, d + 1, n)
    }
}

/// Whether `q` holds distinct chunk indexes below `n`.
pub open spec fn distinct_below(q: Seq<int>, n: int) -> bool {
    &&& forall|i: int| 0 <= i < q.len() ==> 0 <= #[trigger] q[i] < n
    &&& forall|i: int, j: int| 0 <= i < j < q.len() ==> #[trigger] q[i] != #[trigger] q[j]
}

/// The payload packets of `f` in the order `perm` gives their chunk indexes.
pub open spec fn permuted_payload_views(f: FrameView, k: nat, perm: Seq<int>) -> Seq<PacketView> {
    let cs = spec_chunks(f.data, k);
    Seq::new(
        perm.len(),
        |i: int| PacketView::Payload {
            frame_id: f.frame_id,
            packet_id: (perm[i] + 1) as u32,
            data: cs[perm[i]],
        },
    )
}

/// The prefix of `c + 1` chunks is the prefix of `c` chunks and chunk `c`; every prefix is a
/// prefix of the data.
proof fn lemma_prefix(f: FrameView, k: nat, c: int)
    requires
        k > 0,
        0 <= c <= spec_chunks(f.data, k).len(),
    ensures
        ({
            let cs = spec_chunks(f.data, k);
            &&& prefix_bytes(cs, c) == f.data.take(prefix_bytes(cs, c).len() as int)
            &&& prefix_bytes(cs, c).len() + cs.skip(c).flatten().len() == f.data.len()
            &&& c < cs.len() ==> prefix_bytes(cs, c + 1) == prefix_bytes(cs, c) + cs[c]
            &&& c < cs.len() ==> cs.skip(c).flatten().len() == cs[c].len() + cs.skip(c + 1).flatten().len()
            &&& c == cs.len() ==> prefix_bytes(cs, c) == f.data
        }),
{
    let cs = spec_chunks(f.data, k);
    lemma_chunks_rejoin(f.data, k);
    assert(cs.take(c) + cs.skip(c) =~= cs);
    vstd::seq_lib::lemma_flatten_concat(cs.take(c), cs.skip(c));
    assert(f.data == prefix_bytes(cs, c) + cs.skip(c).flatten());
    assert(prefix_bytes(cs, c) =~= f.data.take(prefix_bytes(cs, c).len() as int));
    if c < cs.len() {
        assert(cs.take(c + 1) =~= cs.take(c).push(cs[c]));
        cs.take(c).lemma_flatten_push(cs[c]);
        assert(cs.skip(c).drop_first() =~= cs.skip(c + 1));
        assert(cs.skip(c).first() == cs[c]);
    } else {
        assert(cs.take(c) =~= cs);
    }
}

/// Pushing an index beyond `c` buffers its chunk last; pushing one at or before `c` buffers
/// nothing.
proof fn lemma_pend_push(cs: Seq<Seq<u8>>, q: Seq<int>, x: int, c: int)
    ensures
        pend(cs, q.push(x), c) == if x > c {
            pend(cs, q, c).push(((x + 1) as u32, cs[x]))
        } else {
            pend(cs, q, c)
        },
{
    assert(q.push(x).drop_last() =~= q);
}

/// The buffer holds no payload for an index that has not arrived.
proof fn lemma_pend_none(cs: Seq<Seq<u8>>, q: Seq<int>, n: int, d: int, c: int)
    requires
        distinct_below(q, n),
        n < u32::MAX,
        0 <= d < n + 1,
        !q.contains(d),
    ensures
        pending_index(pend(cs, q, c), (d + 1) as u32) is None,
    decreases q.len(),
{
    if q.len() > 0 {
        let q0 = q.drop_last();
        assert(distinct_below(q0, n));
        assert(!q0.contains(d)) by {
            if q0.contains(d) {
                let i = choose|i: int| 0 <= i < q0.len() && q0[i] == d;
                assert(q[i] == d);
            }
        }
        lemma_pend_none(cs, q0, n, d, c);
        assert(q.last() != d) by {
            assert(q[q.len() - 1] == q.last());
        }
        if q.last() > c {
            let p = pend(cs, q0, c).push(((q.last() + 1) as u32, cs[q.last()]));
            assert(p.drop_last() =~= pend(cs, q0, c));
            assert(0 <= q.last() < n) by {
                assert(q[q.len() - 1] == q.last());
            }
        }
    }
}

/// Buffered bytes are split by whether index `a` arrived.
proof fn lemma_pend_split(cs: Seq<Seq<u8>>, q: Seq<int>, n: int, a: int)
    requires
        distinct_below(q, n),
    ensures
        pending_bytes(pend(cs, q, a - 1)) == pending_bytes(pend(cs, q, a)) + if q.contains(a) {
            cs[a].len()
        } else {
            0
        },
    decreases q.len(),
{
    if q.len() > 0 {
        let q0 = q.drop_last();
        let x = q.last();
        assert(distinct_below(q0, n));
        lemma_pend_split(cs, q0, n, a);
        assert(q =~= q0.push(x));
        assert(q[q.len() - 1] == x);
        assert(q.contains(a) <==> (q0.contains(a) || x == a)) by {
            if q.contains(a) {
                let i = choose|i: int| 0 <= i < q.len() && q[i] == a;
                if i < q.len() - 1 {
                    assert(q0[i] == a);
                }
            }
            if q0.contains(a) {
                let i = choose|i: int| 0 <= i < q0.len() && q0[i] == a;
                assert(q[i] == a);
            }
        }
        if x == a {
            assert(!q0.contains(a)) by {
                if q0.contains(a) {
                    let i = choose|i: int| 0 <= i < q0.len() && q0[i] == a;
                    assert(q[i] == q[q.len() - 1]);
                }
            }
        }
        let p1 = pend(cs, q0, a - 1);
        let p2 = pend(cs, q0, a);
        assert(p1.push(((x + 1) as u32, cs[x])).drop_last() =~= p1);
        assert(p2.push(((x + 1) as u32, cs[x])).drop_last() =~= p2);
    }
}

/// Nothing is buffered beyond the last chunk.
proof fn lemma_pend_empty(cs: Seq<Seq<u8>>, q: Seq<int>, n: int)
    requires
        distinct_below(q, n),
    ensures
        pend(cs, q, n - 1) == Seq::<(u32, Seq<u8>)>::empty(),
    decreases q.len(),
{
    if q.len() > 0 {
        assert(distinct_below(q.drop_last(), n));
        lemma_pend_empty(cs, q.drop_last(), n);
        assert(q[q.len() - 1] == q.last());
    }
}

/// The bytes buffered beyond chunk `a - 1` fit in the chunks from `a` on.
proof fn lemma_pend_bytes(f: FrameView, k: nat, q: Seq<int>, a: int)
    requires
        k > 0,
        distinct_below(q, spec_chunks(f.data, k).len() as int),
        0 <= a <= spec_chunks(f.data, k).len(),
    ensures
        pending_bytes(pend(spec_chunks(f.data, k), q, a - 1)) <= spec_chunks(f.data, k).skip(
            a,
        ).flatten().len(),
    decreases spec_chunks(f.data, k).len() - a,
{
    let cs = spec_chunks(f.data, k);
    let n = cs.len() as int;
    if a == n {
        lemma_pend_empty(cs, q, n);
    } else {
        lemma_pend_split(cs, q, n, a);
        lemma_pend_bytes(f, k, q, a + 1);
        lemma_prefix(f, k, a);
    }
}

/// Where index `d` arrived, the buffer beyond `d - 1` holds its payload, and taking it out
/// leaves the buffer beyond `d`.
proof fn lemma_pend_take(cs: Seq<Seq<u8>>, q: Seq<int>, n: int, d: int)
    requires
        distinct_below(q, n),
        n < u32::MAX,
        q.contains(d),
    ensures
        pending_index(pend(cs, q, d - 1), (d + 1) as u32) matches Some(pos) && 0 <= pos < pend(
            cs,
            q,
            d - 1,
        ).len() && pend(cs, q, d - 1)[pos] == ((d + 1) as u32, cs[d]) && pend(cs, q, d - 1).remove(
            pos,
        ) == pend(cs, q, d),
    decreases q.len(),
{
    let q0 = q.drop_last();
    let x = q.last();
    assert(q.len() > 0);
    assert(q[q.len() - 1] == x);
    assert(distinct_below(q0, n));
    assert(0 <= x < n);
    let p1 = pend(cs, q0, d - 1);
    if x == d {
        assert(!q0.contains(d)) by {
            if q0.contains(d) {
                let i = choose|i: int| 0 <= i < q0.len() && q0[i] == d;
                assert(q[i] == q[q.len() - 1]);
            }
        }
        lemma_pend_none(cs, q0, n, d, d - 1);
        assert(pend(cs, q0, d - 1) == pend(cs, q0, d)) by {
            lemma_pend_same(cs, q0, n, d);
        }
        let full = p1.push(((d + 1) as u32, cs[d]));
        assert(full.remove(full.len() - 1) =~= p1);
    } else {
        assert(q0.contains(d)) by {
            let i = choose|i: int| 0 <= i < q.len() && q[i] == d;
            assert(i != q.len() - 1);
            assert(q0[i] == d);
        }
        lemma_pend_take(cs, q0, n, d);
        let pos = pending_index(p1, (d + 1) as u32)->0;
        if x > d {
            let full = p1.push(((x + 1) as u32, cs[x]));
            assert(full.drop_last() =~= p1);
            assert(full.last().0 != (d + 1) as u32);
            assert(full.remove(pos) =~= p1.remove(pos).push(((x + 1) as u32, cs[x])));
        }
    }
}

/// Where index `d` did not arrive, the buffers beyond `d - 1` and beyond `d` agree.
proof fn lemma_pend_same(cs: Seq<Seq<u8>>, q: Seq<int>, n: int, d: int)
    requires
        distinct_below(q, n),
        !q.contains(d),
    ensures
        pend(cs, q, d - 1) == pend(cs, q, d),
    decreases q.len(),
{
    if q.len() > 0 {
        let q0 = q.drop_last();
        assert(distinct_below(q0, n));
        assert(!q0.contains(d)) by {
            if q0.contains(d) {
                let i = choose|i: int| 0 <= i < q0.len() && q0[i] == d;
                assert(q[i] == d);
            }
        }
        lemma_pend_same(cs, q0, n, d);
        assert(q[q.len() - 1] == q.last());
    }
}

/// The first missing index from `d` on: every index before it arrived, and it did not.
proof fn lemma_next_missing(q: Seq<int>, d: int, n: int)
    requires
        0 <= d <= n,
        forall|x: int| 0 <= x < d ==> q.contains(x),
    ensures
        d <= next_missing(q, d, n) <= n,
        forall|x: int| 0 <= x < next_missing(q, d, n) ==> q.contains(x),
        next_missing(q, d, n) < n ==> !q.contains(next_missing(q, d, n)),
    decreases n - d,
{
    if d < n && q.contains(d) {
        lemma_next_missing(q, d + 1, n);
    }
}

/// A prefix of distinct indexes is distinct.
proof fn lemma_take_distinct(perm: Seq<int>, n: int, i: int)
    requires
        distinct_below(perm, n),
        0 <= i <= perm.len(),
    ensures
        distinct_below(perm.take(i), n),
{
    let q = perm.take(i);
    assert forall|a: int| 0 <= a < q.len() implies 0 <= #[trigger] q[a] < n by {
        assert(q[a] == perm[a]);
    }
    assert forall|a: int, b: int| 0 <= a < b < q.len() implies #[trigger] q[a] != #[trigger] q[b] by {
        assert(q[a] == perm[a] && q[b] == perm[b]);
    }
}

/// The partial frame of `f`, split into `cs`, once chunks `0..c` have been appended and the
/// chunks `q` beyond them are buffered, with the trailer seen or not.
pub open spec fn spec_partial_with(
    f: FrameView,
    cs: Seq<Seq<u8>>,
    c: int,
    q: Seq<int>,
    trailer: Option<u32>,
    now: u64,
) -> PartialView {
    PartialView {
        frame_id: f.frame_id,
        packet_id: c as u32,
        timestamp: f.timestamp,
        payload_type: f.payload_type,
        pixel_format: f.pixel_format,
        width: f.width,
        height: f.height,
        offset: prefix_bytes(cs, c).len(),
        data: prefix_bytes(cs, c) + Seq::new(
            (f.data.len() - prefix_bytes(cs, c).len()) as nat,
            |i: int| 0u8,
        ),
        pending: pend(cs, q, c),
        trailer_packet_id: trailer,
        last_update: now,
    }
}

/// A partial frame with chunks `0..d` appended and the arrived chunks from `d` on buffered.
pub open spec fn spec_partial_before_flush(
    f: FrameView,
    cs: Seq<Seq<u8>>,
    d: int,
    q: Seq<int>,
    trailer: Option<u32>,
    now: u64,
) -> PartialView {
    PartialView { pending: pend(cs, q, d - 1), ..spec_partial_with(f, cs, d, q, trailer, now) }
}

/// The packets of `f` with the payloads in the order `perm` gives their chunk indexes and the
/// trailer after the first `j` of them: the leader, those payloads, the trailer, the rest.
pub open spec fn spec_reordered_views(f: FrameView, k: nat, perm: Seq<int>, j: int) -> Seq<PacketView> {
    let cs = spec_chunks(f.data, k);
    seq![
        PacketView::Leader {
            frame_id: f.frame_id,
            packet_id: 0,
            timestamp: f.timestamp,
            payload_type: f.payload_type,
            pixel_format: f.pixel_format,
            width: f.width,
            height: f.height,
        },
    ] + permuted_payload_views(f, k, perm.take(j)) + seq![
        PacketView::Trailer { frame_id: f.frame_id, packet_id: (cs.len() + 1) as u32 },
    ] + permuted_payload_views(f, k, perm.skip(j))
}

/// Flushing appends the buffered chunks that have become contiguous, up to the first missing
/// one.
proof fn lemma_flush_run(f: FrameView, k: nat, q: Seq<int>, d: int, trailer: Option<u32>, now: u64)
    requires
        k > 0,
        spec_chunks(f.data, k).len() < u32::MAX,
        distinct_below(q, spec_chunks(f.data, k).len() as int),
        0 <= d <= spec_chunks(f.data, k).len(),
        forall|x: int| 0 <= x < d ==> q.contains(x),
    ensures
        spec_flush(spec_partial_before_flush(f, spec_chunks(f.data, k), d, q, trailer, now)) == Ok::<
            PartialView,
            FrameDropReason,
        >(
            spec_partial_with(
                f,
                spec_chunks(f.data, k),
                next_missing(q, d, spec_chunks(f.data, k).len() as int),
                q,
                trailer,
                now,
            ),
        ),
    decreases spec_chunks(f.data, k).len() - d,
{
    let cs = spec_chunks(f.data, k);
    let n = cs.len() as int;
    let t = spec_partial_before_flush(f, cs, d, q, trailer, now);
    lemma_prefix(f, k, d);
    if d < n && q.contains(d) {
        lemma_pend_take(cs, q, n, d);
        let pos = pending_index(t.pending, (d + 1) as u32)->0;
        let f1 = PartialView { pending: t.pending.remove(pos), ..t };
        assert(f1.pending == pend(cs, q, d));
        let o = prefix_bytes(cs, d).len();
        let appended = PartialView {
            data: f1.data.take(o as int) + cs[d] + f1.data.skip((o + cs[d].len()) as int),
            offset: o + cs[d].len(),
            packet_id: (d + 1) as u32,
            ..f1
        };
        assert(spec_append(f1, (d + 1) as u32, cs[d]) == Some(appended));
        lemma_prefix(f, k, d + 1);
        assert(appended.data =~= spec_partial_before_flush(f, cs, d + 1, q, trailer, now).data);
        assert(appended == spec_partial_before_flush(f, cs, d + 1, q, trailer, now));
        lemma_flush_run(f, k, q, d + 1, trailer, now);
    } else {
        if d == n {
            assert(!q.contains(d)) by {
                if q.contains(d) {
                    let i = choose|i: int| 0 <= i < q.len() && q[i] == d;
                }
            }
        }
        lemma_pend_none(cs, q, n, d, d - 1);
        lemma_pend_same(cs, q, n, d);
    }
}

/// Ingesting a frame's leader files a fresh partial frame and hands nothing out.
proof fn lemma_leader_step(frames: Map<u32, PartialView>, f: FrameView, k: nat, now: u64)
    requires
        !frames.contains_key(f.frame_id),
        spec_payload_len(f.pixel_format, f.width, f.height) == Some(f.data.len()),
    ensures
        ({
            let leader = PacketView::Leader {
                frame_id: f.frame_id,
                packet_id: 0,
                timestamp: f.timestamp,
                payload_type: f.payload_type,
                pixel_format: f.pixel_format,
                width: f.width,
                height: f.height,
            };
            let s = spec_ingest(frames, leader, now);
            &&& s.frames == frames.insert(
                f.frame_id,
                spec_partial_with(f, spec_chunks(f.data, k), 0, Seq::<int>::empty(), None, now),
            )
            &&& s.result == Ok::<Option<EventView>, AssembleError>(None)
        }),
{
    let cs = spec_chunks(f.data, k);
    let fresh = spec_fresh(
        f.frame_id,
        0,
        f.timestamp,
        f.payload_type,
        f.pixel_format,
        f.width,
        f.height,
        f.data.len(),
        now,
    );
    let start = spec_partial_with(f, cs, 0, Seq::<int>::empty(), None, now);
    assert(cs.take(0) =~= Seq::<Seq<u8>>::empty());
    assert(prefix_bytes(cs, 0) =~= Seq::<u8>::empty());
    assert(fresh.data =~= start.data);
    assert(fresh == start);
}

/// The payload of the next contiguous chunk appends it and every buffered chunk that follows;
/// where the trailer was seen and no chunk is left missing, it hands out the frame.
proof fn lemma_step_next(
    frames: Map<u32, PartialView>,
    f: FrameView,
    k: nat,
    q: Seq<int>,
    c: int,
    trailer: Option<u32>,
    now: u64,
)
    requires
        !frames.contains_key(f.frame_id),
        k > 0,
        spec_chunks(f.data, k).len() < u32::MAX,
        distinct_below(q, spec_chunks(f.data, k).len() as int),
        0 <= c < spec_chunks(f.data, k).len(),
        forall|x: int| 0 <= x < c ==> q.contains(x),
        !q.contains(c),
        trailer is None || trailer == Some((spec_chunks(f.data, k).len() + 1) as u32),
    ensures
        ({
            let cs = spec_chunks(f.data, k);
            let n = cs.len() as int;
            let payload = PacketView::Payload { frame_id: f.frame_id, packet_id: (c + 1) as u32, data: cs[c] };
            let s = spec_ingest(frames.insert(f.frame_id, spec_partial_with(f, cs, c, q, trailer, now)), payload, now);
            let c2 = next_missing(q.push(c), c + 1, n);
            &&& c + 1 <= c2 <= n
            &&& forall|y: int| 0 <= y < c2 ==> q.push(c).contains(y)
            &&& c2 < n ==> !q.push(c).contains(c2)
            &&& if trailer is Some && c2 == n {
                &&& s.frames == frames
                &&& s.result == Ok::<Option<EventView>, AssembleError>(Some(EventView::Complete(f)))
            } else {
                &&& s.frames == frames.insert(f.frame_id, spec_partial_with(f, cs, c2, q.push(c), trailer, now))
                &&& s.result == Ok::<Option<EventView>, AssembleError>(None)
            }
        }),
{
    let cs = spec_chunks(f.data, k);
    let n = cs.len() as int;
    let fid = f.frame_id;
    let st = spec_partial_with(f, cs, c, q, trailer, now);
    let q2 = q.push(c);
    lemma_chunks_rejoin(f.data, k);
    lemma_prefix(f, k, c);
    lemma_prefix(f, k, c + 1);
    lemma_pend_none(cs, q, n, c, c);
    lemma_pend_push(cs, q, c, c);
    assert(distinct_below(q2, n)) by {
        assert forall|i: int, j: int| 0 <= i < j < q2.len() implies #[trigger] q2[i] != #[trigger] q2[j] by {
            if j == q2.len() - 1 {
                assert(q2[i] == q[i]);
            }
        }
    }
    assert forall|x: int| 0 <= x < c + 1 implies q2.contains(x) by {
        if x < c {
            assert(q.contains(x));
            let i = choose|i: int| 0 <= i < q.len() && q[i] == x;
            assert(q2[i] == x);
        } else {
            assert(q2[q.len() as int] == c);
        }
    }
    let o = prefix_bytes(cs, c).len();
    let appended = PartialView {
        data: st.data.take(o as int) + cs[c] + st.data.skip((o + cs[c].len()) as int),
        offset: o + cs[c].len(),
        packet_id: (c + 1) as u32,
        ..st
    };
    assert(spec_append(st, (c + 1) as u32, cs[c]) == Some(appended));
    assert(appended.data =~= spec_partial_before_flush(f, cs, c + 1, q2, trailer, now).data);
    assert(appended == spec_partial_before_flush(f, cs, c + 1, q2, trailer, now));
    lemma_flush_run(f, k, q2, c + 1, trailer, now);
    lemma_next_missing(q2, c + 1, n);
    let c2 = next_missing(q2, c + 1, n);
    let g = spec_partial_with(f, cs, c2, q2, trailer, now);
    let s = spec_ingest(
        frames.insert(fid, st),
        PacketView::Payload { frame_id: fid, packet_id: (c + 1) as u32, data: cs[c] },
        now,
    );
    if trailer is Some && c2 == n {
        lemma_prefix(f, k, n);
        assert(g.data =~= f.data);
        assert(s.frames =~= frames);
    } else {
        assert(s.frames =~= frames.insert(fid, g));
    }
}

/// The payload of a later chunk is buffered.
proof fn lemma_step_later(
    frames: Map<u32, PartialView>,
    f: FrameView,
    k: nat,
    q: Seq<int>,
    c: int,
    x: int,
    trailer: Option<u32>,
    now: u64,
)
    requires
        !frames.contains_key(f.frame_id),
        k > 0,
        spec_chunks(f.data, k).len() < u32::MAX,
        distinct_below(q.push(x), spec_chunks(f.data, k).len() as int),
        0 <= c < x,
        !q.contains(c),
        trailer is None || trailer == Some((spec_chunks(f.data, k).len() + 1) as u32),
    ensures
        ({
            let cs = spec_chunks(f.data, k);
            let payload = PacketView::Payload { frame_id: f.frame_id, packet_id: (x + 1) as u32, data: cs[x] };
            let s = spec_ingest(frames.insert(f.frame_id, spec_partial_with(f, cs, c, q, trailer, now)), payload, now);
            &&& s.frames == frames.insert(f.frame_id, spec_partial_with(f, cs, c, q.push(x), trailer, now))
            &&& s.result == Ok::<Option<EventView>, AssembleError>(None)
        }),
{
    let cs = spec_chunks(f.data, k);
    let n = cs.len() as int;
    let fid = f.frame_id;
    let q2 = q.push(x);
    let st = spec_partial_with(f, cs, c, q, trailer, now);
    assert(q2[q.len() as int] == x);
    assert(0 <= x < n);
    assert(distinct_below(q, n)) by {
        assert forall|i: int| 0 <= i < q.len() implies 0 <= #[trigger] q[i] < n by {
            assert(q2[i] == q[i]);
        }
        assert forall|i: int, j: int| 0 <= i < j < q.len() implies #[trigger] q[i] != #[trigger] q[j] by {
            assert(q2[i] == q[i] && q2[j] == q[j]);
        }
    }
    assert(!q.contains(x)) by {
        if q.contains(x) {
            let i = choose|i: int| 0 <= i < q.len() && q[i] == x;
            assert(q2[i] == q2[q.len() as int]);
        }
    }
    assert(!q2.contains(c)) by {
        if q2.contains(c) {
            let i = choose|i: int| 0 <= i < q2.len() && q2[i] == c;
            assert(i != q.len());
            assert(q[i] == c);
        }
    }
    lemma_chunks_rejoin(f.data, k);
    assert(cs[x].len() > 0);
    lemma_pend_none(cs, q, n, x, c);
    lemma_pend_push(cs, q, x, c);
    lemma_pend_bytes(f, k, q2, c + 1);
    lemma_prefix(f, k, c);
    lemma_prefix(f, k, c + 1);
    let p0 = pend(cs, q, c);
    assert(p0.push(((x + 1) as u32, cs[x])).drop_last() =~= p0);
    assert(pending_bytes(pend(cs, q2, c)) == pending_bytes(p0) + cs[x].len());
    let g = PartialView { pending: pend(cs, q2, c), last_update: now, ..st };
    assert(g == spec_partial_with(f, cs, c, q2, trailer, now));
    lemma_pend_none(cs, q2, n, c, c);
    assert(spec_flush(g) == Ok::<PartialView, FrameDropReason>(g));
    let s = spec_ingest(
        frames.insert(fid, st),
        PacketView::Payload { frame_id: fid, packet_id: (x + 1) as u32, data: cs[x] },
        now,
    );
    assert(s.frames =~= frames.insert(fid, g));
}

/// The trailer, not seen before, is recorded; where no chunk is missing it hands out the frame.
proof fn lemma_step_trailer(frames: Map<u32, PartialView>, f: FrameView, k: nat, q: Seq<int>, c: int, now: u64)
    requires
        !frames.contains_key(f.frame_id),
        k > 0,
        spec_chunks(f.data, k).len() < u32::MAX,
        distinct_below(q, spec_chunks(f.data, k).len() as int),
        0 <= c <= spec_chunks(f.data, k).len(),
        c < spec_chunks(f.data, k).len() ==> !q.contains(c),
    ensures
        ({
            let cs = spec_chunks(f.data, k);
            let n = cs.len() as int;
            let t = (n + 1) as u32;
            let trailer = PacketView::Trailer { frame_id: f.frame_id, packet_id: t };
            let s = spec_ingest(frames.insert(f.frame_id, spec_partial_with(f, cs, c, q, None, now)), trailer, now);
            if c == n {
                &&& s.frames == frames
                &&& s.result == Ok::<Option<EventView>, AssembleError>(Some(EventView::Complete(f)))
            } else {
                &&& s.frames == frames.insert(f.frame_id, spec_partial_with(f, cs, c, q, Some(t), now))
                &&& s.result == Ok::<Option<EventView>, AssembleError>(None)
            }
        }),
{
    let cs = spec_chunks(f.data, k);
    let n = cs.len() as int;
    let fid = f.frame_id;
    let t = (n + 1) as u32;
    let st = spec_partial_with(f, cs, c, q, None, now);
    let g0 = PartialView { trailer_packet_id: Some(t), last_update: now, ..st };
    assert(g0 == spec_partial_with(f, cs, c, q, Some(t), now));
    assert(!q.contains(c)) by {
        if c == n && q.contains(c) {
            let i = choose|i: int| 0 <= i < q.len() && q[i] == c;
        }
    }
    lemma_pend_none(cs, q, n, c, c);
    assert(spec_flush(g0) == Ok::<PartialView, FrameDropReason>(g0));
    let s = spec_ingest(frames.insert(fid, st), PacketView::Trailer { frame_id: fid, packet_id: t }, now);
    if c == n {
        lemma_prefix(f, k, n);
        assert(g0.data =~= f.data);
        assert(s.frames =~= frames);
    } else {
        assert(s.frames =~= frames.insert(fid, g0));
    }
}

/// Whether `perm` orders every chunk index below `n` once.
pub open spec fn is_order(perm: Seq<int>, n: int) -> bool {
    &&& perm.len() == n
    &&& distinct_below(perm, n)
    &&& forall|x: int| 0 <= x < n ==> perm.contains(x)
}

/// Where every chunk index before `c` arrived among the first `i` payloads and `c` did not,
/// some payload is still to come.
proof fn lemma_more_to_come(perm: Seq<int>, n: int, i: int, c: int)
    requires
        is_order(perm, n),
        0 <= i <= n,
        0 <= c < n,
        !perm.take(i).contains(c),
    ensures
        i < n,
{
    if i == n {
        assert(perm.take(i) =~= perm);
        assert(perm.contains(c));
    }
}

/// Where the first `i` payloads hold every chunk index, none is left.
proof fn lemma_none_to_come(perm: Seq<int>, n: int, i: int)
    requires
        is_order(perm, n),
        0 <= i <= n,
        forall|y: int| 0 <= y < n ==> perm.take(i).contains(y),
    ensures
        i == n,
{
    if i < n {
        let x = perm[i];
        assert(perm.take(i).contains(x));
        let j = choose|j: int| 0 <= j < perm.take(i).len() && perm.take(i)[j] == x;
        assert(perm[j] == perm[i]);
    }
}

/// The facts about the next payload of an order: it is new, and it is at or after the first
/// missing chunk.
proof fn lemma_next_payload(perm: Seq<int>, n: int, i: int, c: int)
    requires
        is_order(perm, n),
        0 <= i < n,
        0 <= c <= n,
        forall|x: int| 0 <= x < c ==> perm.take(i).contains(x),
    ensures
        !perm.take(i).contains(perm[i]),
        c <= perm[i] < n,
        perm.take(i + 1) == perm.take(i).push(perm[i]),
        distinct_below(perm.take(i), n),
        distinct_below(perm.take(i + 1), n),
{
    let q = perm.take(i);
    let x = perm[i];
    lemma_take_distinct(perm, n, i);
    lemma_take_distinct(perm, n, i + 1);
    assert(perm.take(i + 1) =~= q.push(x));
    assert(!q.contains(x)) by {
        if q.contains(x) {
            let j = choose|j: int| 0 <= j < q.len() && q[j] == x;
            assert(perm[j] == perm[i]);
        }
    }
    assert(x >= c) by {
        if x < c {
            assert(q.contains(x));
        }
    }
}

/// With the trailer seen, from the `i`-th payload on, the remaining payloads complete the
/// frame with the last of them.
proof fn lemma_perm_closed(
    frames: Map<u32, PartialView>,
    f: FrameView,
    k: nat,
    perm: Seq<int>,
    i: int,
    c: int,
    now: u64,
)
    requires
        !frames.contains_key(f.frame_id),
        k > 0,
        spec_chunks(f.data, k).len() + 1 <= u32::MAX,
        is_order(perm, spec_chunks(f.data, k).len() as int),
        0 <= i < perm.len(),
        0 <= c < perm.len(),
        forall|x: int| 0 <= x < c ==> perm.take(i).contains(x),
        !perm.take(i).contains(c),
    ensures
        ({
            let cs = spec_chunks(f.data, k);
            let n = cs.len() as int;
            let r = spec_ingest_all(
                frames.insert(f.frame_id, spec_partial_with(f, cs, c, perm.take(i), Some((n + 1) as u32), now)),
                permuted_payload_views(f, k, perm.skip(i)),
                now,
            );
            &&& r.0 =~= frames
            &&& r.1 =~= quiet((n - i - 1) as nat).push(Ok(Some(EventView::Complete(f))))
        }),
    decreases perm.len() - i,
{
    let cs = spec_chunks(f.data, k);
    let n = cs.len() as int;
    let fid = f.frame_id;
    let t = Some((n + 1) as u32);
    let q = perm.take(i);
    let packets = permuted_payload_views(f, k, perm.skip(i));
    let frames1 = frames.insert(fid, spec_partial_with(f, cs, c, q, t, now));
    lemma_next_payload(perm, n, i, c);
    let x = perm[i];
    let q2 = perm.take(i + 1);
    assert(packets[0] == PacketView::Payload { frame_id: fid, packet_id: (x + 1) as u32, data: cs[x] });
    assert(packets.drop_first() =~= permuted_payload_views(f, k, perm.skip(i + 1)));
    let s = spec_ingest(frames1, packets[0], now);
    let tail = spec_ingest_all(s.frames, packets.drop_first(), now);
    assert(spec_ingest_all(frames1, packets, now) == (tail.0, seq![s.result] + tail.1));
    if x == c {
        lemma_step_next(frames, f, k, q, c, t, now);
        let c2 = next_missing(q.push(c), c + 1, n);
        if c2 == n {
            lemma_none_to_come(perm, n, i + 1);
            assert(perm.skip(i + 1) =~= Seq::<int>::empty());
            assert(packets.drop_first() =~= Seq::<PacketView>::empty());
            assert(tail == (s.frames, Seq::<Result<Option<EventView>, AssembleError>>::empty()));
            assert(quiet(0).push(Ok(Some(EventView::Complete(f)))) =~= seq![s.result] + tail.1);
        } else {
            lemma_more_to_come(perm, n, i + 1, c2);
            lemma_perm_closed(frames, f, k, perm, i + 1, c2, now);
            assert(quiet((n - i - 1) as nat).push(Ok(Some(EventView::Complete(f)))) =~= seq![s.result]
                + quiet((n - (i + 1) - 1) as nat).push(Ok(Some(EventView::Complete(f)))));
        }
    } else {
        lemma_step_later(frames, f, k, q, c, x, t, now);
        assert forall|y: int| 0 <= y < c implies q2.contains(y) by {
            assert(q.contains(y));
            let j = choose|j: int| 0 <= j < q.len() && q[j] == y;
            assert(q2[j] == y);
        }
        assert(!q2.contains(c)) by {
            if q2.contains(c) {
                let j = choose|j: int| 0 <= j < q2.len() && q2[j] == c;
                if j < q.len() {
                    assert(q[j] == c);
                }
            }
        }
        lemma_more_to_come(perm, n, i + 1, c);
        lemma_perm_closed(frames, f, k, perm, i + 1, c, now);
        assert(quiet((n - i - 1) as nat).push(Ok(Some(EventView::Complete(f)))) =~= seq![s.result]
            + quiet((n - (i + 1) - 1) as nat).push(Ok(Some(EventView::Complete(f)))));
    }
}

/// With the trailer not seen yet, from the `i`-th payload on, the payloads up to the `j`-th,
/// the trailer and the remaining payloads complete the frame with the last packet.
proof fn lemma_perm_open(
    frames: Map<u32, PartialView>,
    f: FrameView,
    k: nat,
    perm: Seq<int>,
    j: int,
    i: int,
    c: int,
    now: u64,
)
    requires
        !frames.contains_key(f.frame_id),
        k > 0,
        spec_chunks(f.data, k).len() + 1 <= u32::MAX,
        is_order(perm, spec_chunks(f.data, k).len() as int),
        0 <= i <= j <= perm.len(),
        0 <= c <= perm.len(),
        forall|x: int| 0 <= x < c ==> perm.take(i).contains(x),
        c < perm.len() ==> !perm.take(i).contains(c),
    ensures
        ({
            let cs = spec_chunks(f.data, k);
            let n = cs.len() as int;
            let packets = permuted_payload_views(f, k, perm.subrange(i, j)) + seq![
                PacketView::Trailer { frame_id: f.frame_id, packet_id: (n + 1) as u32 },
            ] + permuted_payload_views(f, k, perm.skip(j));
            let r = spec_ingest_all(
                frames.insert(f.frame_id, spec_partial_with(f, cs, c, perm.take(i), None, now)),
                packets,
                now,
            );
            &&& r.0 =~= frames
            &&& r.1 =~= quiet((n - i) as nat).push(Ok(Some(EventView::Complete(f))))
        }),
    decreases j - i,
{
    let cs = spec_chunks(f.data, k);
    let n = cs.len() as int;
    let fid = f.frame_id;
    let q = perm.take(i);
    let trailer = PacketView::Trailer { frame_id: fid, packet_id: (n + 1) as u32 };
    let packets = permuted_payload_views(f, k, perm.subrange(i, j)) + seq![trailer]
        + permuted_payload_views(f, k, perm.skip(j));
    let frames1 = frames.insert(fid, spec_partial_with(f, cs, c, q, None, now));
    lemma_take_distinct(perm, n, i);
    let s = spec_ingest(frames1, packets[0], now);
    let tail = spec_ingest_all(s.frames, packets.drop_first(), now);
    assert(spec_ingest_all(frames1, packets, now) == (tail.0, seq![s.result] + tail.1));
    if i == j {
        assert(perm.subrange(i, j) =~= Seq::<int>::empty());
        assert(packets[0] == trailer);
        assert(packets.drop_first() =~= permuted_payload_views(f, k, perm.skip(j)));
        lemma_step_trailer(frames, f, k, q, c, now);
        if c == n {
            lemma_none_to_come(perm, n, i);
            assert(perm.skip(j) =~= Seq::<int>::empty());
            assert(packets.drop_first() =~= Seq::<PacketView>::empty());
            assert(tail == (s.frames, Seq::<Result<Option<EventView>, AssembleError>>::empty()));
            assert(quiet(0).push(Ok(Some(EventView::Complete(f)))) =~= seq![s.result] + tail.1);
        } else {
            lemma_more_to_come(perm, n, i, c);
            lemma_perm_closed(frames, f, k, perm, i, c, now);
            assert(quiet((n - i) as nat).push(Ok(Some(EventView::Complete(f)))) =~= seq![s.result]
                + quiet((n - i - 1) as nat).push(Ok(Some(EventView::Complete(f)))));
        }
    } else {
        lemma_next_payload(perm, n, i, c);
        let x = perm[i];
        let q2 = perm.take(i + 1);
        assert(packets[0] == PacketView::Payload { frame_id: fid, packet_id: (x + 1) as u32, data: cs[x] });
        assert(packets.drop_first() =~= permuted_payload_views(f, k, perm.subrange(i + 1, j)) + seq![trailer]
            + permuted_payload_views(f, k, perm.skip(j)));
        if x == c {
            lemma_step_next(frames, f, k, q, c, None, now);
            let c2 = next_missing(q.push(c), c + 1, n);
            lemma_perm_open(frames, f, k, perm, j, i + 1, c2, now);
        } else {
            lemma_step_later(frames, f, k, q, c, x, None, now);
            assert forall|y: int| 0 <= y < c implies q2.contains(y) by {
                assert(q.contains(y));
                let l = choose|l: int| 0 <= l < q.len() && q[l] == y;
                assert(q2[l] == y);
            }
            assert(!q2.contains(c)) by {
                if q2.contains(c) {
                    let l = choose|l: int| 0 <= l < q2.len() && q2[l] == c;
                    if l < q.len() {
                        assert(q[l] == c);
                    }
                }
            }
            lemma_perm_open(frames, f, k, perm, j, i + 1, c, now);
        }
        assert(quiet((n - i) as nat).push(Ok(Some(EventView::Complete(f)))) =~= seq![s.result] + quiet(
            (n - (i + 1)) as nat,
        ).push(Ok(Some(EventView::Complete(f)))));
    }
}

/// A frame comes back whole whatever order its payloads arrive in and wherever the trailer
/// comes after the leader: payloads in any order (each chunk once) with the trailer after the
/// first `j` of them are taken without handing anything out until the last packet, which hands
/// out exactly the frame and leaves the other partial frames as they were. Early payloads wait
/// in the frame's buffer until the gap before them closes, and the trailer closes the packet
/// range without completing the frame while a payload is missing.
pub proof fn lemma_reordered_payloads_reassemble(
    frames: Map<u32, PartialView>,
    f: FrameView,
    k: nat,
    perm: Seq<int>,
    j: int,
    now: u64,
)
    requires
        !frames.contains_key(f.frame_id),
        spec_payload_len(f.pixel_format, f.width, f.height) == Some(f.data.len()),
        k > 0,
        spec_chunks(f.data, k).len() + 1 <= u32::MAX,
        is_order(perm, spec_chunks(f.data, k).len() as int),
        0 <= j <= perm.len(),
    ensures
        ({
            let r = spec_ingest_all(frames, spec_reordered_views(f, k, perm, j), now);
            &&& r.0 =~= frames
            &&& r.1 =~= quiet(spec_chunks(f.data, k).len() + 1).push(
                Ok(Some(EventView::Complete(f))),
            )
        }),
{
    let cs = spec_chunks(f.data, k);
    let n = cs.len() as int;
    let fid = f.frame_id;
    let views = spec_reordered_views(f, k, perm, j);
    lemma_leader_step(frames, f, k, now);
    let s = spec_ingest(frames, views[0], now);
    assert(perm.take(0) =~= Seq::<int>::empty());
    assert(perm.subrange(0, j) =~= perm.take(j));
    let trailer = PacketView::Trailer { frame_id: fid, packet_id: (n + 1) as u32 };
    assert(views.drop_first() =~= permuted_payload_views(f, k, perm.subrange(0, j)) + seq![trailer]
        + permuted_payload_views(f, k, perm.skip(j)));
    assert(!perm.take(0).contains(0));
    lemma_perm_open(frames, f, k, perm, j, 0, 0, now);
    let tail = spec_ingest_all(s.frames, views.drop_first(), now);
    assert(spec_ingest_all(frames, views, now) == (tail.0, seq![s.result] + tail.1));
    assert(quiet((n + 1) as nat).push(Ok(Some(EventView::Complete(f)))) =~= seq![s.result] + quiet(
        n as nat,
    ).push(Ok(Some(EventView::Complete(f)))));
}

/// A frame sent as packets comes back whole: each datagram the packetizer makes for it parses
/// to the matching packet, and ingesting those packets in order, into an assembler with no
/// partial frame of that id, hands nothing out until the trailer, which hands out exactly the
/// frame and leaves the other partial frames as they were.
pub proof fn lemma_packetized_frame_reassembles(
    frames: Map<u32, PartialView>,
    f: FrameView,
    k: nat,
    now: u64,
)
    requires
        !frames.contains_key(f.frame_id),
        spec_payload_len(f.pixel_format, f.width, f.height) == Some(f.data.len()),
        k > 0,
        spec_chunks(f.data, k).len() + 1 <= u32::MAX,
    ensures
        ({
            let views = spec_frame_packet_views(f, k);
            let bytes = spec_frame_packets(
                f.frame_id,
                f.timestamp,
                f.payload_type,
                f.pixel_format,
                f.width,
                f.height,
                f.data,
                k,
            );
            let r = spec_ingest_all(frames, views, now);
            &&& bytes.len() == views.len()
            &&& forall|i: int|
                0 <= i < bytes.len() ==> spec_parse(#[trigger] bytes[i]) == ParseOutcome::Parsed(
                    views[i],
                )
            &&& r.0 =~= frames
            &&& r.1 =~= quiet(spec_chunks(f.data, k).len() + 1).push(
                Ok(Some(EventView::Complete(f))),
            )
        }),
{
    let cs = spec_chunks(f.data, k);
    let n = cs.len() as int;
    let views = spec_frame_packet_views(f, k);
    let bytes = spec_frame_packets(
        f.frame_id,
        f.timestamp,
        f.payload_type,
        f.pixel_format,
        f.width,
        f.height,
        f.data,
        k,
    );
    assert forall|i: int| 0 <= i < bytes.len() implies spec_parse(#[trigger] bytes[i])
        == ParseOutcome::Parsed(views[i]) by {
        assert(bytes[i] == spec_to_bytes(views[i]));
        lemma_packet_round_trip(views[i]);
    }
    let in_order = Seq::new(n as nat, |i: int| i);
    assert forall|x: int| 0 <= x < n implies in_order.contains(x) by {
        assert(in_order[x] == x);
    }
    assert(is_order(in_order, n));
    assert(in_order.take(n) =~= in_order);
    assert(in_order.skip(n) =~= Seq::<int>::empty());
    assert(views =~= spec_reordered_views(f, k, in_order, n));
    lemma_reordered_payloads_reassemble(frames, f, k, in_order, n, now);
}

} // verus!
