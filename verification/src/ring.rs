//! The byte ring that carries one direction of the transport.
//!
//! Positions are monotonically increasing counters; the effective offset is
//! the position modulo the capacity. A write either fully succeeds or
//! leaves the ring unchanged; a read drains from the front. The pending
//! bytes form a queue: writes append to it and reads take prefixes, which
//! is the integrity law of the transport. Above the ring, every message is
//! framed as a four-byte big-endian length followed by exactly that many
//! bytes.

use vstd::prelude::*;

use vstd::arithmetic::div_mod::{
    lemma_fundamental_div_mod, lemma_mod_adds, lemma_mod_division_less_than_divisor,
    lemma_small_mod,
};

verus! {

/// The ways the shared ring can fail.
#[derive(Debug, Clone, PartialEq, Eq)]
pub enum SharedMemoryError {
    /// An operating-system failure, with its description.
    Io(String),
    /// The data cannot ever fit: the capacity, and the offered length.
    DataTooLarge(usize, usize),
    /// Nothing to read, or nothing offered to write.
    NoDataAvailable,
    /// A bounded wait elapsed without data.
    Timeout,
    /// The header does not look like a ring.
    Corrupted,
    /// The data would overrun bytes not yet read.
    BufferOverflow,
    /// The requested capacity is not a multiple of the alignment.
    AlignmentError,
}

/// The marker a valid ring header carries.
pub const SHARED_MEM_MAGIC: u32 = 0xDEADBEEF;

/// Capacities are multiples of this alignment.
pub const DEFAULT_ALIGNMENT: usize = 64;

/// The least multiple of `align` at or above `size`.
pub fn align_up(size: usize, align: usize) -> (r: usize)
    requires
        align > 0,
        size + align <= usize::MAX,
    ensures
        r % align == 0,
        size <= r < size + align,
{
    proof {
        let s = (size + align - 1) as int;
        let a = align as int;
        lemma_fundamental_div_mod(s, a);
        lemma_mod_division_less_than_divisor(s, a);
        assert((s / a) * a == s - s % a);
        assert((s / a) * a <= s);
        lemma_mod_is_multiple(s, a);
    }
    ((size + align - 1) / align) * align
}

/// A quotient times its divisor is a multiple of the divisor.
proof fn lemma_mod_is_multiple(x: int, d: int)
    requires
        d > 0,
        x >= 0,
    ensures
        ((x / d) * d) % d == 0,
{
    let q = x / d;
    lemma_fundamental_div_mod(q * d, d);
    lemma_mod_division_less_than_divisor(q * d, d);
    let q2 = (q * d) / d;
    let r2 = (q * d) % d;
    assert(q * d == d * q2 + r2);
    assert(r2 == d * (q - q2)) by (nonlinear_arith)
        requires
            q * d == d * q2 + r2,
    ;
    if q - q2 >= 1 {
        assert(d * (q - q2) >= d) by (nonlinear_arith)
            requires
                d > 0,
                q - q2 >= 1,
        ;
    }
    if q - q2 <= -1 {
        assert(d * (q - q2) <= -d) by (nonlinear_arith)
            requires
                d > 0,
                q - q2 <= -1,
        ;
    }
}

/// Shifting by a non-multiple of the capacity lands on a different slot.
proof fn lemma_mod_shift_distinct(a: int, d: int, cap: int)
    requires
        cap > 0,
        0 < d < cap,
        a >= 0,
    ensures
        (a + d) % cap != a % cap,
{
    if (a + d) % cap == a % cap {
        lemma_fundamental_div_mod(a, cap);
        lemma_fundamental_div_mod(a + d, cap);
        let q1 = a / cap;
        let q2 = (a + d) / cap;
        assert(d == cap * q2 - cap * q1);
        assert(d == cap * (q2 - q1)) by (nonlinear_arith)
            requires
                d == cap * q2 - cap * q1,
        ;
        let k = q2 - q1;
        if k <= 0 {
            assert(cap * k <= 0) by (nonlinear_arith)
                requires
                    cap > 0,
                    k <= 0,
            ;
        } else {
            assert(cap * k >= cap) by (nonlinear_arith)
                requires
                    cap > 0,
                    k >= 1,
            ;
        }
    }
}

/// One direction of the duplex: a single-producer, single-consumer byte
/// ring. The backing storage is owned here; mapping it into a shared file
/// is the embedder's concern.
pub struct SharedMemory {
    buf: Vec<u8>,
    magic: u32,
    ready: bool,
    read_pos: usize,
    write_pos: usize,
}

impl SharedMemory {
    /// The ring's invariant: aligned non-zero capacity, a valid marker, and
    /// positions that delimit at most one capacity of pending bytes.
    pub closed spec fn wf(self) -> bool {
        &&& self.buf@.len() > 0
        &&& self.buf@.len() as int % (DEFAULT_ALIGNMENT as int) == 0
        &&& self.magic == SHARED_MEM_MAGIC
        &&& self.read_pos <= self.write_pos
        &&& self.write_pos - self.read_pos <= self.buf@.len()
    }

    /// The capacity of the ring.
    pub closed spec fn spec_capacity(self) -> int {
        self.buf@.len() as int
    }

    /// The bytes written and not yet read, oldest first.
    pub closed spec fn contents(self) -> Seq<u8> {
        Seq::new(
            (self.write_pos - self.read_pos) as nat,
            |i: int| self.buf@[(self.read_pos + i) % self.spec_capacity()],
        )
    }

    /// The monotonic write position.
    pub closed spec fn spec_write_pos(self) -> int {
        self.write_pos as int
    }

    /// The monotonic read position.
    pub closed spec fn spec_read_pos(self) -> int {
        self.read_pos as int
    }

    /// Whether the header reads as a valid ring: marker and aligned
    /// non-zero capacity.
    pub closed spec fn spec_header_ok(self) -> bool {
        self.magic == SHARED_MEM_MAGIC && self.buf@.len() > 0 && self.buf@.len() as int % (
        DEFAULT_ALIGNMENT as int) == 0
    }

    /// The ready flag: set after a write, cleared when drained or on
    /// recovery.
    pub closed spec fn spec_ready(self) -> bool {
        self.ready
    }

    /// A fresh ring. The capacity must be a positive multiple of the
    /// alignment.
    pub fn create(initial_size: usize) -> (r: Result<SharedMemory, SharedMemoryError>)
        ensures
            match r {
                Ok(m) => m.wf() && initial_size > 0 && initial_size % DEFAULT_ALIGNMENT == 0
                    && m.spec_capacity() == initial_size && m.contents() =~= Seq::<u8>::empty()
                    && m.spec_read_pos() == 0 && m.spec_write_pos() == 0 && !m.spec_ready(),
                Err(e) => e == SharedMemoryError::AlignmentError && (initial_size == 0
                    || initial_size % DEFAULT_ALIGNMENT != 0),
            },
    {
        if initial_size == 0 || initial_size % DEFAULT_ALIGNMENT != 0 {
            return Err(SharedMemoryError::AlignmentError);
        }
        let mut buf: Vec<u8> = Vec::new();
        let mut i: usize = 0;
        while i < initial_size
            invariant
                i <= initial_size,
                buf@.len() == i,
            decreases initial_size - i,
        {
            buf.push(0);
            i = i + 1;
        }
        Ok(SharedMemory { buf, magic: SHARED_MEM_MAGIC, ready: false, read_pos: 0, write_pos: 0 })
    }

    /// The ring's capacity in bytes.
    pub fn capacity(&self) -> (r: usize)
        ensures
            r == self.spec_capacity(),
    {
        self.buf.len()
    }

    /// How many bytes are pending.
    pub fn available(&self) -> (r: usize)
        requires
            self.wf(),
        ensures
            r == self.contents().len(),
    {
        self.write_pos - self.read_pos
    }

    /// The monotonic write position.
    pub fn write_position(&self) -> (r: usize)
        ensures
            r == self.spec_write_pos(),
    {
        self.write_pos
    }

    /// The monotonic read position.
    pub fn read_position(&self) -> (r: usize)
        ensures
            r == self.spec_read_pos(),
    {
        self.read_pos
    }

    /// Whether the header still looks like a ring: the marker matches and
    /// the capacity is an aligned non-zero size.
    pub fn check_health(&self) -> (r: Result<(), SharedMemoryError>)
        ensures
            match r {
                Ok(()) => self.spec_header_ok(),
                Err(e) => e == SharedMemoryError::Corrupted && !self.spec_header_ok(),
            },
    {
        if self.magic != SHARED_MEM_MAGIC {
            return Err(SharedMemoryError::Corrupted);
        }
        let cap = self.buf.len();
        if cap == 0 || cap % DEFAULT_ALIGNMENT != 0 {
            return Err(SharedMemoryError::Corrupted);
        }
        Ok(())
    }

    /// Re-checks the invariants and clears the ready flag; positions are
    /// not rewound.
    pub fn recover(&mut self) -> (r: Result<(), SharedMemoryError>)
        ensures
            final(self).contents() == old(self).contents(),
            final(self).spec_capacity() == old(self).spec_capacity(),
            final(self).spec_read_pos() == old(self).spec_read_pos(),
            final(self).spec_write_pos() == old(self).spec_write_pos(),
            final(self).spec_header_ok() == old(self).spec_header_ok(),
            final(self).wf() == old(self).wf(),
            match r {
                Ok(()) => old(self).spec_header_ok() && !final(self).spec_ready(),
                Err(e) => e == SharedMemoryError::Corrupted && !old(self).spec_header_ok()
                    && final(self).spec_ready() == old(self).spec_ready(),
            },
    {
        if self.magic != SHARED_MEM_MAGIC {
            return Err(SharedMemoryError::Corrupted);
        }
        let cap = self.buf.len();
        if cap == 0 || cap % DEFAULT_ALIGNMENT != 0 {
            return Err(SharedMemoryError::Corrupted);
        }
        self.ready = false;
        Ok(())
    }

    /// Appends `data` to the pending bytes. Fails without touching the ring
    /// when the data is empty, larger than the whole ring, or larger than
    /// the space the reader has freed.
    #[verifier::loop_isolation(false)]
    pub fn write(&mut self, data: &Vec<u8>) -> (r: Result<(), SharedMemoryError>)
        requires
            old(self).wf(),
            old(self).spec_write_pos() + data@.len() <= usize::MAX,
        ensures
            final(self).wf(),
            match r {
                Ok(()) => data@.len() > 0 && data@.len() + old(self).contents().len() <= old(self).spec_capacity() && final(self).contents() =~= old(self).contents() + data@
                    && final(self).spec_write_pos() == old(self).spec_write_pos() + data@.len()
                    && final(self).spec_read_pos() == old(self).spec_read_pos() && final(self).spec_capacity() == old(self).spec_capacity() && final(self).spec_ready(),
                Err(e) => *final(self) == *old(self) && match e {
                    SharedMemoryError::NoDataAvailable => data@.len() == 0,
                    SharedMemoryError::DataTooLarge(c, l) => c == old(self).spec_capacity() && l
                        == data@.len() && data@.len() > old(self).spec_capacity(),
                    SharedMemoryError::BufferOverflow => data@.len() <= old(self).spec_capacity()
                        && data@.len() + old(self).contents().len() > old(self).spec_capacity(),
                    _ => false,
                },
            },
    {
        let len = data.len();
        let capacity = self.buf.len();
        if len == 0 {
            return Err(SharedMemoryError::NoDataAvailable);
        }
        if len > capacity {
            return Err(SharedMemoryError::DataTooLarge(capacity, len));
        }
        let used = self.write_pos - self.read_pos;
        if len > capacity - used {
            return Err(SharedMemoryError::BufferOverflow);
        }
        let ghost old_buf = self.buf@;
        let ghost cap = capacity as int;
        let ghost wp = self.write_pos as int;
        let ghost rp = self.read_pos as int;
        let mut k: usize = 0;
        while k < len
            invariant
                k <= len,
                self.buf@.len() == capacity,
                self.read_pos == old(self).read_pos,
                self.write_pos == old(self).write_pos,
                self.magic == old(self).magic,
                self.ready == old(self).ready,
                forall|j: int| 0 <= j < k ==> self.buf@[(wp + j) % cap] == data@[j],
                forall|i: int|
                    0 <= i < wp - rp ==> #[trigger] self.buf@[(rp + i) % cap] == old_buf[(rp + i)
                        % cap],
            decreases len - k,
        {
            proof {
                lemma_mod_division_less_than_divisor(wp + k, cap);
            }
            let slot = (self.write_pos + k) % capacity;
            self.buf.set(slot, data[k]);
            proof {
                assert forall|j: int|
                    0 <= j < k + 1 implies self.buf@[(wp + j) % cap] == data@[j] by {
                    if j < k {
                        lemma_mod_shift_distinct(wp + j, k - j, cap);
                    }
                }
                assert forall|i: int|
                    0 <= i < wp - rp implies #[trigger] self.buf@[(rp + i) % cap] == old_buf[(rp
                    + i) % cap] by {
                    lemma_mod_shift_distinct(rp + i, (wp - rp) + k - i, cap);
                    lemma_mod_division_less_than_divisor(rp + i, cap);
                }
            }
            k = k + 1;
        }
                self.write_pos = self.write_pos + len;
        self.ready = true;
        proof {
            assert forall|i: int| 0 <= i < self.contents().len() implies self.contents()[i] == (
            old(self).contents() + data@)[i] by {
                if i < wp - rp {
                    assert(self.contents()[i] == self.buf@[(rp + i) % cap]);
                } else {
                    lemma_mod_adds(wp, i - (wp - rp), cap);
                    lemma_mod_division_less_than_divisor(wp, cap);
                    lemma_small_mod((i - (wp - rp)) as nat, cap as nat);
                    assert((rp + i) % cap == (wp + (i - (wp - rp))) % cap);
                }
            }
            assert(self.contents() =~= old(self).contents() + data@);
        }
                Ok(())
    }

    /// Reads up to `buf.len()` pending bytes into the front of `buf`,
    /// advancing the read position past them. Fails if nothing is pending.
    #[verifier::loop_isolation(false)]
    pub fn read(&mut self, buf: &mut Vec<u8>) -> (r: Result<usize, SharedMemoryError>)
        requires
            old(self).wf(),
        ensures
            final(self).wf(),
            final(self).spec_capacity() == old(self).spec_capacity(),
            final(self).spec_write_pos() == old(self).spec_write_pos(),
            final(buf)@.len() == old(buf)@.len(),
            match r {
                Ok(n) => old(self).contents().len() > 0 && n == if old(self).contents().len()
                    <= old(buf)@.len() {
                    old(self).contents().len() as int
                } else {
                    old(buf)@.len() as int
                } && (forall|i: int|
                    0 <= i < n ==> final(buf)@[i] == old(self).contents()[i]) && (forall|i: int|
                    n <= i < old(buf)@.len() ==> final(buf)@[i] == old(buf)@[i]) && final(self).contents() =~= old(self).contents().skip(n as int) && final(self).spec_read_pos()
                    == old(self).spec_read_pos() + n && final(self).spec_ready() == (if final(self).contents().len() == 0 {
                    false
                } else {
                    old(self).spec_ready()
                }),
                Err(e) => e == SharedMemoryError::NoDataAvailable && old(self).contents().len()
                    == 0 && *final(self) == *old(self) && *final(buf) == *old(buf),
            },
    {
        let available = self.write_pos - self.read_pos;
        if available == 0 {
            return Err(SharedMemoryError::NoDataAvailable);
        }
        let capacity = self.buf.len();
        let to_read: usize = if available <= buf.len() {
            available
        } else {
            buf.len()
        };
        let mut k: usize = 0;
        while k < to_read
            invariant
                k <= to_read,
                buf@.len() == old(buf)@.len(),
                *self == *old(self),
                forall|i: int| 0 <= i < k ==> buf@[i] == old(self).contents()[i],
                forall|i: int| k <= i < buf@.len() ==> buf@[i] == old(buf)@[i],
            decreases to_read - k,
        {
            proof {
                lemma_mod_division_less_than_divisor((self.read_pos + k) as int, capacity as int);
            }
            let b = self.buf[(self.read_pos + k) % capacity];
            buf.set(k, b);
            k = k + 1;
        }
        self.read_pos = self.read_pos + to_read;
        if self.write_pos == self.read_pos {
            self.ready = false;
        }
        proof {
            let cap = capacity as int;
            let orp = old(self).read_pos as int;
            assert forall|i: int| 0 <= i < self.contents().len() implies self.contents()[i] == old(self).contents().skip(to_read as int)[i] by {
                assert((self.read_pos + i) % cap == (orp + (to_read + i)) % cap);
            }
            assert(self.contents() =~= old(self).contents().skip(to_read as int));
        }
        Ok(to_read)
    }

    /// Reads only when data is pending, as the read itself reports.
    pub fn try_read(&mut self, buf: &mut Vec<u8>) -> (r: Result<usize, SharedMemoryError>)
        requires
            old(self).wf(),
        ensures
            final(self).wf(),
            final(self).spec_capacity() == old(self).spec_capacity(),
            final(buf)@.len() == old(buf)@.len(),
            match r {
                Ok(n) => old(self).contents().len() > 0 && n == if old(self).contents().len()
                    <= old(buf)@.len() {
                    old(self).contents().len() as int
                } else {
                    old(buf)@.len() as int
                } && (forall|i: int|
                    0 <= i < n ==> final(buf)@[i] == old(self).contents()[i]) && final(self).contents() =~= old(self).contents().skip(n as int) && final(self).spec_ready() == (if final(self).contents().len() == 0 {
                    false
                } else {
                    old(self).spec_ready()
                }),
                Err(e) => e == SharedMemoryError::NoDataAvailable && old(self).contents().len()
                    == 0 && *final(self) == *old(self) && *final(buf) == *old(buf),
            },
    {
        if self.write_pos <= self.read_pos {
            return Err(SharedMemoryError::NoDataAvailable);
        }
        self.read(buf)
    }
}

// ---------------------------------------------------------------------------
// The integrity law of the ring.
// ---------------------------------------------------------------------------
/// One step of traffic on a ring, in the model: a write appends its bytes;
/// a read takes up to its budget from the front.
pub enum RingOp {
    Write(Seq<u8>),
    Read(nat),
}

/// The writes carried by a run, concatenated in order.
pub open spec fn writes_of(ops: Seq<RingOp>) -> Seq<u8>
    decreases ops.len(),
{
    if ops.len() == 0 {
        Seq::empty()
    } else {
        (match ops[0] {
            RingOp::Write(w) => w,
            RingOp::Read(_) => Seq::empty(),
        }) + writes_of(ops.drop_first())
    }
}

/// Runs the traffic over the queue model: returns the concatenation of all
/// bytes the reads produced, and the bytes still pending.
pub open spec fn ring_run(pending: Seq<u8>, ops: Seq<RingOp>) -> (Seq<u8>, Seq<u8>)
    decreases ops.len(),
{
    if ops.len() == 0 {
        (Seq::empty(), pending)
    } else {
        match ops[0] {
            RingOp::Write(w) => ring_run(pending + w, ops.drop_first()),
            RingOp::Read(budget) => {
                let n = if pending.len() <= budget {
                    pending.len() as int
                } else {
                    budget as int
                };
                let rest = ring_run(pending.skip(n), ops.drop_first());
                (pending.take(n) + rest.0, rest.1)
            },
        }
    }
}

/// Ring integrity: over any interleaving of writes and reads, the bytes
/// read followed by the bytes still pending are exactly the bytes that
/// were pending at the start followed by every written byte, in order. In
/// particular, a run that drains the ring reads precisely the
/// concatenation of the writes.
pub proof fn lemma_ring_integrity(pending: Seq<u8>, ops: Seq<RingOp>)
    ensures
        ring_run(pending, ops).0 + ring_run(pending, ops).1 =~= pending + writes_of(ops),
    decreases ops.len(),
{
    if ops.len() == 0 {
        assert(ring_run(pending, ops).0 + ring_run(pending, ops).1 =~= pending + writes_of(ops));
    } else {
        match ops[0] {
            RingOp::Write(w) => {
                lemma_ring_integrity(pending + w, ops.drop_first());
                assert((pending + w) + writes_of(ops.drop_first()) =~= pending + writes_of(ops));
            },
            RingOp::Read(budget) => {
                let n = if pending.len() <= budget {
                    pending.len() as int
                } else {
                    budget as int
                };
                lemma_ring_integrity(pending.skip(n), ops.drop_first());
                assert(pending.take(n) + (pending.skip(n) + writes_of(ops.drop_first())) =~=
                pending + writes_of(ops));
            },
        }
    }
}

/// What every well-formed ring guarantees its callers: a positive aligned
/// capacity, and never more pending bytes than fit.
pub proof fn lemma_ring_bounds(m: SharedMemory)
    requires
        m.wf(),
    ensures
        0 < m.spec_capacity(),
        m.spec_capacity() as int % (DEFAULT_ALIGNMENT as int) == 0,
        m.contents().len() <= m.spec_capacity(),
        m.spec_read_pos() <= m.spec_write_pos(),
        m.spec_header_ok(),
{
}

// ---------------------------------------------------------------------------
// Framing: a four-byte big-endian length before each message.
// ---------------------------------------------------------------------------
/// The big-endian bytes of a 32-bit length.
pub open spec fn spec_u32_be(x: u32) -> Seq<u8> {
    seq![
        ((x >> 24) & 0xff) as u8,
        ((x >> 16) & 0xff) as u8,
        ((x >> 8) & 0xff) as u8,
        (x & 0xff) as u8,
    ]
}

/// The 32-bit length four big-endian bytes carry.
pub open spec fn spec_u32_from_be(b: Seq<u8>) -> u32
    recommends
        b.len() == 4,
{
    ((b[0] as u32) << 24) | ((b[1] as u32) << 16) | ((b[2] as u32) << 8) | (b[3] as u32)
}

/// Reading back the four bytes of a length gives the length.
pub proof fn lemma_u32_be_round_trip(x: u32)
    ensures
        spec_u32_from_be(spec_u32_be(x)) == x,
{
    assert(((((x >> 24) & 0xff) as u8) as u32) << 24 | ((((x >> 16) & 0xff) as u8) as u32) << 16
        | ((((x >> 8) & 0xff) as u8) as u32) << 8 | (((x & 0xff) as u8) as u32) == x)
        by (bit_vector);
}

/// A frame: the length prefix followed by the payload bytes.
pub open spec fn spec_frame(data: Seq<u8>) -> Seq<u8> {
    spec_u32_be(data.len() as u32) + data
}

/// Wraps a message's bytes in a frame.
pub fn frame_payload(data: &Vec<u8>) -> (r: Vec<u8>)
    requires
        data@.len() <= u32::MAX,
    ensures
        r@ =~= spec_frame(data@),
        r@.len() == data@.len() + 4,
    {
    let len: u32 = data.len() as u32;
    let mut r: Vec<u8> = Vec::new();
    r.push(((len >> 24) & 0xff) as u8);
    r.push(((len >> 16) & 0xff) as u8);
    r.push(((len >> 8) & 0xff) as u8);
    r.push((len & 0xff) as u8);
    let mut k: usize = 0;
    while k < data.len()
        invariant
            k <= data@.len(),
            r@.len() == 4 + k,
            r@.subrange(0, 4) =~= spec_u32_be(data@.len() as u32),
            forall|i: int| 0 <= i < k ==> r@[4 + i] == data@[i],
        decreases data@.len() - k,
    {
        r.push(data[k]);
        k = k + 1;
    }
    r
}

/// Reads the length out of a frame header.
pub fn frame_length(header: &Vec<u8>) -> (r: u32)
    requires
        header@.len() == 4,
    ensures
        r == spec_u32_from_be(header@),
    {
    ((header[0] as u32) << 24) | ((header[1] as u32) << 16) | ((header[2] as u32) << 8) | (
    header[3] as u32)
}

/// The frame of a message opens with its own length: reading the first
/// four bytes of `spec_frame(data)` gives `data.len()`, and the rest is
/// `data` itself.
pub proof fn lemma_frame_round_trip(data: Seq<u8>)
    requires
        data.len() <= u32::MAX,
    ensures
        spec_u32_from_be(spec_frame(data).subrange(0, 4)) == data.len(),
        spec_frame(data).skip(4) =~= data,
{
    assert(spec_frame(data).subrange(0, 4) =~= spec_u32_be(data.len() as u32));
    lemma_u32_be_round_trip(data.len() as u32);
}

} // verus!
