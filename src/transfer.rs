//! One resumable transfer: the metadata probe's verdict, where writing
//! starts, and the buffered stream of chunks into the destination.
use vstd::prelude::*;
use vstd::string::StringExecFns;
use crate::decimal::{decimal_chars, push_decimal, unsigned_value, parse_unsigned};
use crate::failure::Failure;

verus! {

/// A status of the success (2xx) or redirection (3xx) classes.
pub open spec fn status_admitted(status: u16) -> bool {
    200 <= status < 400
}

/// Whether a probe answered with `status` lets the transfer go on.
pub fn probe_admits(status: u16) -> (r: bool)
    ensures
        r == status_admitted(status),
{
    200 <= status && status < 400
}

/// The ASCII bytes of `bytes`, the one range unit that allows resumption.
pub open spec fn bytes_unit() -> Seq<u8> {
    seq![98u8, 121u8, 116u8, 101u8, 115u8]
}

/// Whether an `Accept-Ranges` header value announces byte ranges.
pub fn accepts_byte_ranges(v: Option<&[u8]>) -> (r: bool)
    ensures
        r == (v is Some && v.unwrap()@ == bytes_unit()),
{
    match v {
        None => false,
        Some(b) => {
            if b.len() != 5 {
                return false;
            }
            let r = b[0] == 98 && b[1] == 121 && b[2] == 116 && b[3] == 101 && b[4] == 115;
            proof {
                if r {
                    assert(b@ =~= bytes_unit());
                }
            }
            r
        },
    }
}

/// What the metadata probe taught about a resource.
#[derive(Debug, Clone, Copy, PartialEq, Eq)]
pub struct ProbeInfo {
    /// The announced size in bytes, if the server gave a readable one.
    pub expected_size: Option<u64>,
    /// Whether the server honours byte-range requests.
    pub range_supported: bool,
}

/// The size that a `Content-Length` header value announces, if any.
pub open spec fn announced_size(v: Option<Seq<u8>>) -> Option<u64> {
    match v {
        Some(s) => unsigned_value(s),
        None => None,
    }
}

/// Judges the answer to the metadata probe: its status, and the values of
/// its `Content-Length` and `Accept-Ranges` headers where present.
pub fn evaluate_probe(status: u16, content_length: Option<&[u8]>, accept_ranges: Option<&[u8]>) -> (r: Result<ProbeInfo, Failure>)
    ensures
        r is Ok <==> status_admitted(status),
        !status_admitted(status) ==> r == Err::<ProbeInfo, Failure>(Failure::ProbeStatus(status)),
        r is Ok ==> r->Ok_0.expected_size == announced_size(
            match content_length { Some(c) => Some(c@), None => None },
        ),
        r is Ok ==> r->Ok_0.range_supported == (accept_ranges is Some && accept_ranges.unwrap()@ == bytes_unit()),
{
    if !probe_admits(status) {
        return Err(Failure::ProbeStatus(status));
    }
    let expected_size = match content_length {
        Some(c) => parse_unsigned(c),
        None => None,
    };
    Ok(ProbeInfo { expected_size, range_supported: accepts_byte_ranges(accept_ranges) })
}

/// Where and how the destination is written.
#[derive(Debug, Clone, Copy, PartialEq, Eq)]
pub struct TransferPlan {
    /// The offset of the first byte requested; the bytes before it are kept.
    pub start_offset: u64,
    /// Whether the destination is emptied before writing.
    pub truncate: bool,
    /// The first byte of the ranged request, when the request is ranged.
    pub range_start: Option<u64>,
}

/// The offset at which a transfer starts: the length of the existing
/// destination when resumption is enabled, the server honours ranges and a
/// destination exists; 0 otherwise.
pub open spec fn resume_offset(resume_enabled: bool, range_supported: bool, existing_len: Option<u64>) -> u64 {
    if resume_enabled && range_supported && existing_len is Some {
        existing_len.unwrap()
    } else {
        0
    }
}

/// Decides where writing starts. `existing_len` is the length of the
/// destination when it exists and its length could be read.
pub fn plan_transfer(resume_enabled: bool, range_supported: bool, existing_len: Option<u64>) -> (r: TransferPlan)
    ensures
        r.start_offset == resume_offset(resume_enabled, range_supported, existing_len),
        !range_supported ==> r.start_offset == 0 && r.truncate,
        r.truncate == (r.start_offset == 0),
        r.range_start == (if r.start_offset > 0 { Some(r.start_offset) } else { None }),
{
    let start_offset: u64 = match existing_len {
        Some(len) if resume_enabled && range_supported => len,
        _ => 0,
    };
    TransferPlan {
        start_offset,
        truncate: start_offset == 0,
        range_start: if start_offset > 0 { Some(start_offset) } else { None },
    }
}

/// The value of the `Range` header that asks for every byte from `start` on.
pub open spec fn range_header_chars(start: nat) -> Seq<char> {
    seq!['b', 'y', 't', 'e', 's', '='] + decimal_chars(start) + seq!['-']
}

/// Writes the `Range` header value `bytes=<start>-`.
pub fn range_header(start: u64) -> (r: String)
    ensures
        r@ == range_header_chars(start as nat),
{
    let mut s = String::from_str("bytes=");
    proof { reveal_strlit("bytes="); }
    push_decimal(&mut s, start);
    s.append("-");
    proof {
        reveal_strlit("-");
        assert(s@ =~= range_header_chars(start as nat));
    }
    s
}

/// The number of bytes a transfer still has to deliver, when the size is
/// announced: the announced size less the start offset, or 0 if the offset
/// is already past it.
pub fn remaining_total(expected_size: Option<u64>, start_offset: u64) -> (r: Option<u64>)
    ensures
        r == (match expected_size {
            Some(t) => Some(if t >= start_offset { (t - start_offset) as u64 } else { 0u64 }),
            None => None,
        }),
{
    match expected_size {
        Some(t) => Some(t.saturating_sub(start_offset)),
        None => None,
    }
}

/// The stage of the streaming part of a transfer.
#[derive(Debug, Clone, Copy, PartialEq, Eq)]
pub enum StreamPhase {
    Streaming,
    Done,
}

/// The streaming state of one transfer: it takes the chunks of the body in
/// order and hands back the blocks to write, each at least a buffer's
/// capacity long, and the rest once the body is exhausted.
pub struct Transfer {
    phase: StreamPhase,
    start_offset: u64,
    bytes_written: u64,
    capacity: usize,
    buffer: Vec<u8>,
    received: Ghost<Seq<u8>>,
    flushed: Ghost<Seq<u8>>,
}

impl Transfer {
    /// The body bytes taken so far, in order.
    pub closed spec fn received(&self) -> Seq<u8> {
        self.received@
    }

    /// The body bytes handed back for writing so far, in order.
    pub closed spec fn flushed(&self) -> Seq<u8> {
        self.flushed@
    }

    pub closed spec fn spec_phase(&self) -> StreamPhase {
        self.phase
    }

    pub closed spec fn spec_start_offset(&self) -> u64 {
        self.start_offset
    }

    pub closed spec fn spec_bytes_written(&self) -> u64 {
        self.bytes_written
    }

    pub closed spec fn spec_capacity(&self) -> usize {
        self.capacity
    }

    /// The blocks handed back and the buffered bytes together are exactly
    /// what was received; the counter is the start offset plus what was
    /// received; once done, nothing remains buffered.
    pub closed spec fn wf(&self) -> bool {
        &&& self.flushed@ + self.buffer@ == self.received@
        &&& self.bytes_written == self.start_offset + self.received@.len()
        &&& self.phase == StreamPhase::Done ==> self.buffer@.len() == 0
    }

    /// Starts streaming into a destination positioned at `start_offset`,
    /// batching writes into blocks of `capacity` bytes.
    pub fn new(start_offset: u64, capacity: usize) -> (r: Transfer)
        ensures
            r.wf(),
            r.spec_phase() == StreamPhase::Streaming,
            r.spec_start_offset() == start_offset,
            r.spec_bytes_written() == start_offset,
            r.spec_capacity() == capacity,
            r.received() == Seq::<u8>::empty(),
            r.flushed() == Seq::<u8>::empty(),
    {
        Transfer {
            phase: StreamPhase::Streaming,
            start_offset,
            bytes_written: start_offset,
            capacity,
            buffer: Vec::new(),
            received: Ghost(Seq::empty()),
            flushed: Ghost(Seq::empty()),
        }
    }

    /// The position counter: the start offset plus every byte received.
    pub fn bytes_written(&self) -> (r: u64)
        ensures
            r == self.spec_bytes_written(),
    {
        self.bytes_written
    }

    pub fn start_offset(&self) -> (r: u64)
        ensures
            r == self.spec_start_offset(),
    {
        self.start_offset
    }

    pub fn phase(&self) -> (r: StreamPhase)
        ensures
            r == self.spec_phase(),
    {
        self.phase
    }

    /// The number of bytes buffered and not yet handed back for writing.
    pub fn buffered(&self) -> (r: usize)
        requires
            self.wf(),
        ensures
            r == self.received().len() - self.flushed().len(),
    {
        self.buffer.len()
    }

    /// The position to show for this transfer: the bytes received in this
    /// attempt, not counting those already present before it.
    pub fn progress_position(&self) -> (r: u64)
        requires
            self.wf(),
        ensures
            r == self.received().len(),
    {
        self.bytes_written - self.start_offset
    }

    /// Takes the next chunk of the body. The counter grows by the chunk's
    /// length at once; when the buffer reaches its capacity, its whole
    /// content is handed back to be written as one block and it is cleared.
    /// A chunk that would carry the counter past 64 bits is refused and
    /// changes nothing.
    pub fn push_chunk(&mut self, chunk: &[u8]) -> (r: Result<Option<Vec<u8>>, Failure>)
        requires
            old(self).wf(),
            old(self).spec_phase() == StreamPhase::Streaming,
        ensures
            final(self).wf(),
            final(self).spec_phase() == StreamPhase::Streaming,
            final(self).spec_start_offset() == old(self).spec_start_offset(),
            final(self).spec_capacity() == old(self).spec_capacity(),
            old(self).spec_bytes_written() + chunk@.len() > u64::MAX <==> r is Err,
            r is Err ==> r == Err::<Option<Vec<u8>>, Failure>(Failure::SizeOverflow) && *final(self) == *old(self),
            r is Ok ==> {
                &&& final(self).received() == old(self).received() + chunk@
                &&& final(self).spec_bytes_written() == old(self).spec_bytes_written() + chunk@.len()
                &&& (old(self).received().len() - old(self).flushed().len() + chunk@.len() >= old(self).spec_capacity()
                    <==> r->Ok_0 is Some)
                &&& match r->Ok_0 {
                    Some(block) => final(self).flushed() == old(self).flushed() + block@
                        && final(self).received() == final(self).flushed(),
                    None => final(self).flushed() == old(self).flushed(),
                }
            },
    {
        if chunk.len() as u64 > u64::MAX - self.bytes_written {
            return Err(Failure::SizeOverflow);
        }
        let ghost before = self.buffer@;
        let mut i: usize = 0;
        while i < chunk.len()
            invariant
                i <= chunk.len(),
                self.buffer@ == before + chunk@.take(i as int),
                self.bytes_written == old(self).bytes_written,
                self.start_offset == old(self).start_offset,
                self.capacity == old(self).capacity,
                self.phase == old(self).phase,
                self.received == old(self).received,
                self.flushed == old(self).flushed,
                before == old(self).buffer@,
                chunk.len() as u64 <= u64::MAX - self.bytes_written,
            decreases chunk.len() - i,
        {
            self.buffer.push(chunk[i]);
            i = i + 1;
            proof {
                assert(before + chunk@.take(i as int) =~= (before + chunk@.take(i - 1)).push(chunk@[i - 1]));
            }
        }
        assert(chunk@.take(chunk.len() as int) =~= chunk@);
        self.bytes_written = self.bytes_written + chunk.len() as u64;
        self.received = Ghost(self.received@ + chunk@);
        assert(self.flushed@ + self.buffer@ =~= self.received@);
        if self.buffer.len() >= self.capacity {
            let mut block: Vec<u8> = Vec::new();
            std::mem::swap(&mut block, &mut self.buffer);
            self.flushed = Ghost(self.flushed@ + block@);
            assert(self.flushed@ + self.buffer@ =~= self.flushed@);
            Ok(Some(block))
        } else {
            Ok(None)
        }
    }

    /// Ends the stream: hands back the bytes still buffered (possibly none)
    /// and moves to `Done`. Afterwards everything received has been handed
    /// back, and the counter equals the start offset plus all of it.
    pub fn finish(&mut self) -> (r: Vec<u8>)
        requires
            old(self).wf(),
            old(self).spec_phase() == StreamPhase::Streaming,
        ensures
            final(self).wf(),
            final(self).spec_phase() == StreamPhase::Done,
            final(self).received() == old(self).received(),
            final(self).flushed() == old(self).flushed() + r@,
            final(self).flushed() == final(self).received(),
            final(self).spec_start_offset() == old(self).spec_start_offset(),
            final(self).spec_bytes_written() == old(self).spec_bytes_written(),
            final(self).spec_bytes_written() == final(self).spec_start_offset() + final(self).flushed().len(),
    {
        let mut block: Vec<u8> = Vec::new();
        std::mem::swap(&mut block, &mut self.buffer);
        self.flushed = Ghost(self.flushed@ + block@);
        self.phase = StreamPhase::Done;
        assert(self.flushed@ + self.buffer@ =~= self.flushed@);
        block
    }
}

/// The destination after a transfer: the `start` bytes kept from what was
/// there before, followed by every block written from that offset on.
pub open spec fn artifact_after(existing: Seq<u8>, start: nat, written: Seq<u8>) -> Seq<u8> {
    existing.take(start as int) + written
}

/// At `Done`, the counter equals the size of the destination, whether the
/// transfer started fresh (offset 0) or resumed after the whole of the
/// existing destination.
pub proof fn lemma_final_size(t: Transfer, existing: Seq<u8>)
    requires
        t.wf(),
        t.spec_phase() == StreamPhase::Done,
        existing.len() >= t.spec_start_offset(),
    ensures
        artifact_after(existing, t.spec_start_offset() as nat, t.flushed()).len() == t.spec_bytes_written(),
{
}

/// A resumed transfer writes only the bytes from its start offset on: when
/// the kept bytes are the resource's own beginning and the body is the rest
/// of the resource, the destination ends up identical to the resource, which
/// is what a transfer from offset 0 that received the whole resource leaves.
pub proof fn lemma_resume_matches_fresh(resumed: Transfer, fresh: Transfer, existing: Seq<u8>, resource: Seq<u8>)
    requires
        resumed.wf(),
        resumed.spec_phase() == StreamPhase::Done,
        existing.len() == resumed.spec_start_offset(),
        existing.len() <= resource.len(),
        existing == resource.take(existing.len() as int),
        resumed.received() == resource.skip(existing.len() as int),
        fresh.wf(),
        fresh.spec_phase() == StreamPhase::Done,
        fresh.spec_start_offset() == 0,
        fresh.received() == resource,
    ensures
        resumed.flushed() == resource.skip(existing.len() as int),
        artifact_after(existing, existing.len(), resumed.flushed()) == resource,
        artifact_after(existing, existing.len(), resumed.flushed())
            == artifact_after(existing, 0, fresh.flushed()),
        resumed.spec_bytes_written() == resource.len(),
{
    assert(existing.take(existing.len() as int) =~= existing);
    assert(existing + resource.skip(existing.len() as int) =~= resource);
    assert(existing.take(0) + fresh.flushed() =~= resource);
}

/// Limits how often a transfer's position is shown: a position is let
/// through only when more than `interval_ms` milliseconds have passed since
/// the last one that was.
#[derive(Debug, Clone, Copy, PartialEq, Eq)]
pub struct ProgressThrottle {
    pub interval_ms: u64,
    pub last_ms: u64,
}

impl ProgressThrottle {
    /// A throttle whose interval starts at `now_ms`.
    pub fn new(interval_ms: u64, now_ms: u64) -> (r: ProgressThrottle)
        ensures
            r.interval_ms == interval_ms,
            r.last_ms == now_ms,
    {
        ProgressThrottle { interval_ms, last_ms: now_ms }
    }

    /// Offers `position` at time `now_ms`; returns it when it is to be shown,
    /// and then starts a new interval at `now_ms`. A clock reading earlier
    /// than the last one counts as no time passed.
    pub fn offer(&mut self, now_ms: u64, position: u64) -> (r: Option<u64>)
        ensures
            final(self).interval_ms == old(self).interval_ms,
            (now_ms > old(self).last_ms && now_ms - old(self).last_ms > old(self).interval_ms) <==> r is Some,
            r is Some ==> r == Some(position) && final(self).last_ms == now_ms,
            r is None ==> final(self).last_ms == old(self).last_ms,
    {
        if now_ms.saturating_sub(self.last_ms) > self.interval_ms {
            self.last_ms = now_ms;
            Some(position)
        } else {
            None
        }
    }
}

} // verus!
