//! Descriptor chains: where in guest memory a request is read from and its reply
//! is written to.
//!
//! A chain is a list of buffers in guest memory, each readable or writeable. A
//! cursor walks the buffers of one direction. It never crosses a buffer in one
//! transfer, and guest memory itself is accessed by the caller, which is told
//! the address and the size ([`Transfer`]). A transfer that would run past the end
//! of the address space is an error; the bytes of a buffer before that are not.

use vstd::prelude::*;

verus! {

/// One buffer of a descriptor chain.
#[derive(Clone, Copy, Debug, PartialEq, Eq, Structural)]
pub struct PayloadBuffer {
    pub writeable: bool,
    pub address: u64,
    pub length: u32,
}

/// `size` bytes of guest memory at `address`.
#[derive(Clone, Copy, Debug, PartialEq, Eq, Structural)]
pub struct Transfer {
    pub address: u64,
    pub size: usize,
}

/// What a cursor offers.
#[derive(Clone, Copy, Debug, PartialEq, Eq, Structural)]
pub enum Offer {
    /// Nothing is left.
    End,
    /// What comes next runs past the end of the address space.
    Bad,
    /// These bytes come next.
    Bytes(Transfer),
}

// ---------------------------------------------------------------------------
// The model of a chain
// ---------------------------------------------------------------------------

/// How many bytes the buffers of one direction hold together.
pub open spec fn payload_length(p: Seq<PayloadBuffer>, writeable: bool) -> nat
    decreases p.len(),
{
    if p.len() == 0 {
        0
    } else {
        payload_length(p.drop_last(), writeable) + if p.last().writeable == writeable {
            p.last().length as nat
        } else {
            0
        }
    }
}

/// The guest addresses of the bytes of one direction, in order.
pub open spec fn stream(p: Seq<PayloadBuffer>, writeable: bool) -> Seq<int>
    decreases p.len(),
{
    if p.len() == 0 {
        Seq::empty()
    } else {
        let b = p.last();
        stream(p.drop_last(), writeable) + if b.writeable == writeable {
            Seq::new(b.length as nat, |i: int| b.address + i)
        } else {
            Seq::empty()
        }
    }
}

/// One past the last address.
pub open spec fn address_end() -> int {
    0x1_0000_0000_0000_0000
}

/// The `size` bytes at `address` have addresses, and so has the place where they
/// start.
pub open spec fn addressable(address: int, size: int) -> bool {
    address < address_end() && address + size <= address_end()
}

/// The first buffer of one direction at or after `from`, or the end of the chain.
pub open spec fn seek(p: Seq<PayloadBuffer>, from: int, writeable: bool) -> int
    decreases p.len() - from,
{
    if from >= p.len() {
        p.len() as int
    } else if p[from].writeable == writeable {
        from
    } else {
        seek(p, from + 1, writeable)
    }
}

/// Where a cursor stands: at `offset` in the buffer `at`, or at the end of the
/// chain.
pub struct Place {
    pub at: int,
    pub offset: int,
}

/// `c` stands at a buffer of its direction, within it or at its end, or at the
/// end of the chain. What it has passed of a buffer has addresses.
pub open spec fn standing(p: Seq<PayloadBuffer>, writeable: bool, c: Place) -> bool {
    &&& 0 <= c.at <= p.len()
    &&& c.offset >= 0
    &&& c.at < p.len() ==> p[c.at].writeable == writeable && c.offset <= p[c.at].length
    &&& c.at < p.len() ==> p[c.at].address + c.offset <= address_end()
    &&& c.at == p.len() ==> c.offset == 0
}

/// A cursor at the end of its buffer moves on to the next buffer of its
/// direction; it moves once.
pub open spec fn moved(p: Seq<PayloadBuffer>, writeable: bool, c: Place) -> Place {
    if c.at < p.len() && c.offset == p[c.at].length {
        Place { at: seek(p, c.at + 1, writeable), offset: 0 }
    } else {
        c
    }
}

/// What a cursor offers for at most `want` bytes, after it has moved.
pub open spec fn offered(p: Seq<PayloadBuffer>, c: Place, want: int) -> Offer {
    if c.at >= p.len() {
        Offer::End
    } else {
        let address = p[c.at].address + c.offset;
        let size = at_most(p[c.at].length - c.offset, want);
        if addressable(address, size) {
            Offer::Bytes(Transfer { address: address as u64, size: size as usize })
        } else {
            Offer::Bad
        }
    }
}

/// The smaller one.
pub open spec fn at_most(a: int, b: int) -> int {
    if a <= b {
        a
    } else {
        b
    }
}

/// The buffer at which `c` stands holds `size` bytes more, which have addresses.
pub open spec fn holds(p: Seq<PayloadBuffer>, c: Place, size: int) -> bool {
    &&& c.at < p.len()
    &&& size <= p[c.at].length - c.offset
    &&& addressable(p[c.at].address + c.offset, size)
}

/// How many bytes of its direction a cursor has passed.
pub open spec fn passed(p: Seq<PayloadBuffer>, writeable: bool, c: Place) -> int {
    payload_length(p.take(c.at), writeable) + c.offset
}

/// How many bytes the buffers from `from` on hold before one of them is empty.
pub open spec fn room_from(p: Seq<PayloadBuffer>, from: int, writeable: bool) -> nat
    decreases p.len() - from,
{
    if from < 0 || from >= p.len() {
        0
    } else if p[from].writeable != writeable {
        room_from(p, from + 1, writeable)
    } else if p[from].length == 0 {
        0
    } else {
        p[from].length as nat + room_from(p, from + 1, writeable)
    }
}

/// How many bytes there are from `c` on before a transfer is one of none: to the end
/// of the chain, or to an empty buffer that the cursor moves onto.
pub open spec fn room(p: Seq<PayloadBuffer>, writeable: bool, c: Place) -> nat {
    if c.at >= p.len() {
        0
    } else {
        (p[c.at].length - c.offset) as nat + room_from(p, c.at + 1, writeable)
    }
}

/// Where a cursor starts.
pub open spec fn start(p: Seq<PayloadBuffer>, writeable: bool) -> Place {
    Place { at: seek(p, 0, writeable), offset: 0 }
}

// ---------------------------------------------------------------------------
// Facts about the model
// ---------------------------------------------------------------------------

proof fn lemma_seek(p: Seq<PayloadBuffer>, from: int, writeable: bool)
    requires
        0 <= from <= p.len(),
    ensures
        from <= seek(p, from, writeable) <= p.len(),
        seek(p, from, writeable) < p.len() ==> p[seek(p, from, writeable)].writeable == writeable,
        payload_length(p.take(seek(p, from, writeable)), writeable) == payload_length(
            p.take(from),
            writeable,
        ),
        room_from(p, from, writeable) == room_from(p, seek(p, from, writeable), writeable),
    decreases p.len() - from,
{
    if from < p.len() && p[from].writeable != writeable {
        lemma_seek(p, from + 1, writeable);
        assert(p.take(from + 1).drop_last() =~= p.take(from));
    }
}

proof fn lemma_stream_len(p: Seq<PayloadBuffer>, writeable: bool)
    ensures
        stream(p, writeable).len() == payload_length(p, writeable),
    decreases p.len(),
{
    if p.len() > 0 {
        lemma_stream_len(p.drop_last(), writeable);
    }
}

proof fn lemma_stream_at(p: Seq<PayloadBuffer>, writeable: bool, at: int, k: int)
    requires
        0 <= at < p.len(),
        p[at].writeable == writeable,
        0 <= k < p[at].length,
    ensures
        payload_length(p.take(at), writeable) + k < stream(p, writeable).len(),
        stream(p, writeable)[payload_length(p.take(at), writeable) + k] == p[at].address + k,
    decreases p.len(),
{
    let q = p.drop_last();
    lemma_stream_len(p, writeable);
    lemma_stream_len(q, writeable);
    if at == p.len() - 1 {
        assert(p.take(at) =~= q);
    } else {
        assert(p.take(at) =~= q.take(at));
        lemma_stream_at(q, writeable, at, k);
    }
}

proof fn lemma_length_grows(p: Seq<PayloadBuffer>, writeable: bool, a: int, b: int)
    requires
        0 <= a <= b <= p.len(),
    ensures
        payload_length(p.take(a), writeable) <= payload_length(p.take(b), writeable),
    decreases b - a,
{
    if a < b {
        lemma_length_grows(p, writeable, a, b - 1);
        assert(p.take(b).drop_last() =~= p.take(b - 1));
    }
}

proof fn lemma_length_step(p: Seq<PayloadBuffer>, writeable: bool, at: int)
    requires
        0 <= at < p.len(),
    ensures
        payload_length(p.take(at + 1), writeable) == payload_length(p.take(at), writeable)
            + if p[at].writeable == writeable {
            p[at].length as int
        } else {
            0
        },
{
    assert(p.take(at + 1).drop_last() =~= p.take(at));
}

/// Moving on passes no byte, and leaves the cursor standing.
proof fn lemma_moved(p: Seq<PayloadBuffer>, writeable: bool, c: Place)
    requires
        standing(p, writeable, c),
    ensures
        standing(p, writeable, moved(p, writeable, c)),
        passed(p, writeable, moved(p, writeable, c)) == passed(p, writeable, c),
        room(p, writeable, c) == 0 <==> {
            let d = moved(p, writeable, c);
            d.at == p.len() || p[d.at].length == d.offset
        },
        room(p, writeable, c) > 0 ==> room(p, writeable, moved(p, writeable, c)) == room(
            p,
            writeable,
            c,
        ),
{
    if c.at < p.len() && c.offset == p[c.at].length {
        lemma_seek(p, c.at + 1, writeable);
        lemma_length_step(p, writeable, c.at);
    }
}

// ---------------------------------------------------------------------------
// The cursor
// ---------------------------------------------------------------------------

/// Whether the readable bytes of a chain can be counted.
pub fn chain_ok(payload: &[PayloadBuffer]) -> (ok: bool)
    ensures
        ok == (payload_length(payload@, false) <= usize::MAX),
{
    let mut i: usize = 0;
    let mut sum: usize = 0;
    assert(payload@.take(0) =~= Seq::<PayloadBuffer>::empty());
    while i < payload.len()
        invariant
            i <= payload@.len(),
            sum == payload_length(payload@.take(i as int), false),
        decreases payload@.len() - i,
    {
        let b = payload[i];
        proof {
            lemma_length_step(payload@, false, i as int);
            lemma_length_grows(payload@, false, i + 1, payload@.len() as int);
            assert(payload@.take(payload@.len() as int) =~= payload@);
        }
        if !b.writeable {
            match sum.checked_add(b.length as usize) {
                None => return false,
                Some(n) => sum = n,
            }
        }
        i = i + 1;
    }
    assert(payload@.take(i as int) =~= payload@);
    true
}

/// A walk over the buffers of one direction of a chain.
pub struct PayloadCursor<'a> {
    payload: &'a [PayloadBuffer],
    writeable: bool,
    at: usize,
    offset: usize,
}

impl<'a> PayloadCursor<'a> {
    /// The chain.
    pub closed spec fn chain(&self) -> Seq<PayloadBuffer> {
        self.payload@
    }

    /// The direction: writeable buffers, or readable ones.
    pub closed spec fn direction(&self) -> bool {
        self.writeable
    }

    /// Where the cursor stands.
    pub closed spec fn place(&self) -> Place {
        Place { at: self.at as int, offset: self.offset as int }
    }

    /// The cursor stands in its chain.
    pub open spec fn wf(&self) -> bool {
        standing(self.chain(), self.direction(), self.place())
    }

    /// A cursor at the first buffer of its direction.
    pub fn new(payload: &'a [PayloadBuffer], writeable: bool) -> (c: PayloadCursor<'a>)
        ensures
            c.wf(),
            c.chain() == payload@,
            c.direction() == writeable,
            c.place() == start(payload@, writeable),
            passed(c.chain(), writeable, c.place()) == 0,
    {
        let at = Self::find(payload, 0, writeable);
        proof {
            lemma_seek(payload@, 0, writeable);
            assert(payload@.take(0) =~= Seq::<PayloadBuffer>::empty());
        }
        PayloadCursor { payload, writeable, at, offset: 0 }
    }

    fn find(payload: &[PayloadBuffer], from: usize, writeable: bool) -> (at: usize)
        requires
            from <= payload@.len(),
        ensures
            at == seek(payload@, from as int, writeable),
    {
        let mut i: usize = from;
        while i < payload.len() && payload[i].writeable != writeable
            invariant
                from <= i <= payload@.len(),
                seek(payload@, i as int, writeable) == seek(payload@, from as int, writeable),
            decreases payload@.len() - i,
        {
            i = i + 1;
        }
        i
    }

    /// Moves on from the end of a buffer, and offers a transfer of at most `want`
    /// bytes from the current one. The bytes are not passed until
    /// [`PayloadCursor::advance`].
    pub fn offer(&mut self, want: usize) -> (r: Offer)
        requires
            old(self).wf(),
        ensures
            final(self).wf(),
            final(self).chain() == old(self).chain(),
            final(self).direction() == old(self).direction(),
            final(self).place() == moved(
                old(self).chain(),
                old(self).direction(),
                old(self).place(),
            ),
            r == offered(final(self).chain(), final(self).place(), want as int),
            passed(final(self).chain(), final(self).direction(), final(self).place()) == passed(
                old(self).chain(),
                old(self).direction(),
                old(self).place(),
            ),
    {
        proof {
            lemma_moved(self.chain(), self.direction(), self.place());
        }
        if self.at < self.payload.len() && self.offset == self.payload[self.at].length as usize {
            self.at = Self::find(self.payload, self.at + 1, self.writeable);
            self.offset = 0;
        }
        if self.at >= self.payload.len() {
            return Offer::End;
        }
        let b = self.payload[self.at];
        let left: usize = b.length as usize - self.offset;
        let size: usize = if left <= want {
            left
        } else {
            want
        };
        match b.address.checked_add(self.offset as u64) {
            None => Offer::Bad,
            Some(address) => if size > 0 && address > u64::MAX - (size - 1) as u64 {
                Offer::Bad
            } else {
                Offer::Bytes(Transfer { address, size })
            },
        }
    }

    /// Passes `size` bytes of the current buffer.
    pub fn advance(&mut self, size: usize)
        requires
            old(self).wf(),
            size > 0 ==> holds(old(self).chain(), old(self).place(), size as int),
        ensures
            final(self).wf(),
            final(self).chain() == old(self).chain(),
            final(self).direction() == old(self).direction(),
            final(self).place() == (Place {
                at: old(self).place().at,
                offset: old(self).place().offset + size,
            }),
    {
        if size > 0 {
            self.offset = self.offset + size;
        }
    }
}

// ---------------------------------------------------------------------------
// Reading a request
// ---------------------------------------------------------------------------

/// Reads the readable bytes of a chain in order.
pub struct PayloadReader<'a> {
    cursor: PayloadCursor<'a>,
    position: usize,
    len: usize,
}

impl<'a> PayloadReader<'a> {
    /// The chain.
    pub closed spec fn chain(&self) -> Seq<PayloadBuffer> {
        self.cursor.chain()
    }

    /// Where the reader stands.
    pub closed spec fn place(&self) -> Place {
        self.cursor.place()
    }

    /// How many bytes were read.
    pub closed spec fn position(&self) -> int {
        self.position as int
    }

    /// How many bytes there are to read.
    pub closed spec fn length(&self) -> int {
        self.len as int
    }

    /// The reader walks the readable buffers.
    pub closed spec fn walks_readable(&self) -> bool {
        !self.cursor.direction()
    }

    /// The reader stands in its chain, whose readable bytes it has counted.
    pub open spec fn wf(&self) -> bool {
        &&& self.walks_readable()
        &&& standing(self.chain(), false, self.place())
        &&& self.length() == payload_length(self.chain(), false)
    }

    /// A reader at the start of the chain.
    pub fn new(payload: &'a [PayloadBuffer]) -> (r: PayloadReader<'a>)
        requires
            payload_length(payload@, false) <= usize::MAX,
        ensures
            r.wf(),
            r.chain() == payload@,
            r.place() == start(payload@, false),
            r.position() == 0,
            r.length() == payload_length(payload@, false),
            passed(payload@, false, r.place()) == 0,
    {
        let mut i: usize = 0;
        let mut len: usize = 0;
        assert(payload@.take(0) =~= Seq::<PayloadBuffer>::empty());
        while i < payload.len()
            invariant
                i <= payload@.len(),
                len == payload_length(payload@.take(i as int), false),
                payload_length(payload@, false) <= usize::MAX,
            decreases payload@.len() - i,
        {
            proof {
                lemma_length_step(payload@, false, i as int);
                lemma_length_grows(payload@, false, i + 1, payload@.len() as int);
                assert(payload@.take(payload@.len() as int) =~= payload@);
            }
            if !payload[i].writeable {
                len = len + payload[i].length as usize;
            }
            i = i + 1;
        }
        assert(payload@.take(i as int) =~= payload@);
        PayloadReader { cursor: PayloadCursor::new(payload, false), position: 0, len }
    }

    /// Offers the next transfer for a buffer of `want` bytes, never past the end of
    /// the current payload buffer. Once guest memory was read,
    /// [`PayloadReader::read_done`] passes the bytes.
    pub fn read(&mut self, want: usize) -> (r: Offer)
        requires
            old(self).wf(),
        ensures
            final(self).wf(),
            final(self).chain() == old(self).chain(),
            final(self).place() == moved(old(self).chain(), false, old(self).place()),
            final(self).position() == old(self).position(),
            final(self).length() == old(self).length(),
            r == offered(final(self).chain(), final(self).place(), want as int),
            passed(final(self).chain(), false, final(self).place()) == passed(
                old(self).chain(),
                false,
                old(self).place(),
            ),
    {
        self.cursor.offer(want)
    }

    /// Whether `size` bytes more can be counted.
    pub fn position_fits(&self, size: usize) -> (b: bool)
        ensures
            b == (self.position() + size <= usize::MAX),
    {
        size <= usize::MAX - self.position
    }

    /// Passes the `size` bytes of an offered transfer.
    pub fn read_done(&mut self, size: usize)
        requires
            old(self).wf(),
            size > 0 ==> holds(old(self).chain(), old(self).place(), size as int),
            old(self).position() + size <= usize::MAX,
        ensures
            final(self).wf(),
            final(self).chain() == old(self).chain(),
            final(self).place() == (Place {
                at: old(self).place().at,
                offset: old(self).place().offset + size,
            }),
            final(self).position() == old(self).position() + size,
            final(self).length() == old(self).length(),
    {
        self.cursor.advance(size);
        self.position = self.position + size;
    }

    /// The rest of the current payload buffer, which is what a scan for a byte
    /// reads next; the end, where a scan fails for want of input: at the end of the
    /// chain, or on an empty buffer.
    pub fn read_until(&mut self) -> (r: Offer)
        requires
            old(self).wf(),
        ensures
            final(self).wf(),
            final(self).chain() == old(self).chain(),
            final(self).place() == moved(old(self).chain(), false, old(self).place()),
            final(self).position() == old(self).position(),
            final(self).length() == old(self).length(),
            passed(final(self).chain(), false, final(self).place()) == passed(
                old(self).chain(),
                false,
                old(self).place(),
            ),
            r == match offered(final(self).chain(), final(self).place(), usize::MAX as int) {
                Offer::Bytes(t) if t.size == 0 => Offer::End,
                o => o,
            },
            r is End <==> room(old(self).chain(), false, old(self).place()) == 0,
            r matches Offer::Bytes(t) ==> {
                let c = final(self).place();
                &&& holds(final(self).chain(), c, t.size as int)
                &&& t.size > 0
                &&& t.size == final(self).chain()[c.at].length - c.offset
            },
    {
        proof {
            lemma_moved(self.chain(), false, self.place());
        }
        match self.cursor.offer(usize::MAX) {
            Offer::Bytes(t) => if t.size == 0 {
                Offer::End
            } else {
                Offer::Bytes(t)
            },
            r => r,
        }
    }

    /// Takes the bytes of the transfer that [`PayloadReader::read_until`] gave. If
    /// `byte` is among them, what stands before it is appended to `found`, the
    /// reader stands just after it, and the scan is over; otherwise all of them
    /// are appended and the scan goes on.
    pub fn until_done(&mut self, bytes: &[u8], byte: u8, found: &mut Vec<u8>) -> (over: bool)
        requires
            old(self).wf(),
            bytes@.len() > 0,
            holds(old(self).chain(), old(self).place(), bytes@.len() as int),
            bytes@.len() == old(self).chain()[old(self).place().at].length
                - old(self).place().offset,
            old(self).position() + bytes@.len() <= usize::MAX,
        ensures
            final(self).wf(),
            final(self).chain() == old(self).chain(),
            final(self).length() == old(self).length(),
            final(self).position() == old(self).position() + bytes@.len(),
            over == bytes@.contains(byte),
            final(found)@ == old(found)@ + before(bytes@, byte),
            final(self).place() == (Place {
                at: old(self).place().at,
                offset: old(self).place().offset + before(bytes@, byte).len() + if over {
                    1int
                } else {
                    0
                },
            }),
    {
        let mut i: usize = 0;
        while i < bytes.len() && bytes[i] != byte
            invariant
                i <= bytes@.len(),
                forall|j: int| 0 <= j < i ==> bytes@[j] != byte,
                found@ == old(found)@ + bytes@.take(i as int),
            decreases bytes@.len() - i,
        {
            found.push(bytes[i]);
            assert(bytes@.take(i + 1) =~= bytes@.take(i as int).push(bytes@[i as int]));
            i = i + 1;
        }
        proof {
            lemma_before(bytes@, byte, i as int);
        }
        self.position = self.position + bytes.len();
        if i < bytes.len() {
            assert(bytes@[i as int] == byte);
            self.cursor.advance(i + 1);
            true
        } else {
            assert(bytes@.take(i as int) =~= bytes@);
            self.cursor.advance(i);
            false
        }
    }

    /// Whether [`PayloadReader::remaining_len`] has an answer. A scan counts the
    /// whole buffer that it looked at, so that a chain that was scanned and then
    /// read may have been counted past its end.
    pub fn has_remaining_len(&self) -> (b: bool)
        ensures
            b == (self.position() <= self.length()),
    {
        self.position <= self.len
    }

    /// How many bytes are left to read.
    pub fn remaining_len(&self) -> (n: usize)
        requires
            self.wf(),
            self.position() <= self.length(),
        ensures
            n == self.length() - self.position(),
    {
        self.len - self.position
    }
}

/// What stands before the first `byte`, or everything where there is none.
pub open spec fn before(s: Seq<u8>, byte: u8) -> Seq<u8>
    decreases s.len(),
{
    if s.len() == 0 || s[0] == byte {
        Seq::empty()
    } else {
        seq![s[0]] + before(s.drop_first(), byte)
    }
}

proof fn lemma_before(s: Seq<u8>, byte: u8, i: int)
    requires
        0 <= i <= s.len(),
        forall|j: int| 0 <= j < i ==> s[j] != byte,
        i < s.len() ==> s[i] == byte,
    ensures
        before(s, byte) == s.take(i),
    decreases s.len(),
{
    if i == 0 {
        assert(s.take(0) =~= Seq::<u8>::empty());
    } else {
        let t = s.drop_first();
        assert forall|j: int| 0 <= j < i - 1 implies t[j] != byte by {
            assert(t[j] == s[j + 1]);
        }
        lemma_before(t, byte, i - 1);
        assert(s.take(i) =~= seq![s[0]] + t.take(i - 1));
    }
}

// ---------------------------------------------------------------------------
// Writing a reply
// ---------------------------------------------------------------------------

/// Writes the writeable bytes of a chain in order.
pub struct PayloadWriter<'a> {
    cursor: PayloadCursor<'a>,
}

impl<'a> PayloadWriter<'a> {
    /// The chain.
    pub closed spec fn chain(&self) -> Seq<PayloadBuffer> {
        self.cursor.chain()
    }

    /// Where the writer stands.
    pub closed spec fn place(&self) -> Place {
        self.cursor.place()
    }

    /// The writer walks the writeable buffers.
    pub closed spec fn walks_writeable(&self) -> bool {
        self.cursor.direction()
    }

    /// The writer stands in its chain.
    pub open spec fn wf(&self) -> bool {
        &&& self.walks_writeable()
        &&& standing(self.chain(), true, self.place())
    }

    /// A writer at the start of the chain.
    pub fn new(payload: &'a [PayloadBuffer]) -> (w: PayloadWriter<'a>)
        ensures
            w.wf(),
            w.chain() == payload@,
            w.place() == start(payload@, true),
            passed(payload@, true, w.place()) == 0,
    {
        PayloadWriter { cursor: PayloadCursor::new(payload, true) }
    }

    /// Offers the next transfer for `want` bytes, never past the end of the current
    /// payload buffer. Once guest memory was written,
    /// [`PayloadWriter::write_done`] passes the bytes.
    pub fn write(&mut self, want: usize) -> (r: Offer)
        requires
            old(self).wf(),
        ensures
            final(self).wf(),
            final(self).chain() == old(self).chain(),
            final(self).place() == moved(old(self).chain(), true, old(self).place()),
            r == offered(final(self).chain(), final(self).place(), want as int),
            passed(final(self).chain(), true, final(self).place()) == passed(
                old(self).chain(),
                true,
                old(self).place(),
            ),
    {
        self.cursor.offer(want)
    }

    /// Passes the `size` bytes of an offered transfer.
    pub fn write_done(&mut self, size: usize)
        requires
            old(self).wf(),
            size > 0 ==> holds(old(self).chain(), old(self).place(), size as int),
        ensures
            final(self).wf(),
            final(self).chain() == old(self).chain(),
            final(self).place() == (Place {
                at: old(self).place().at,
                offset: old(self).place().offset + size,
            }),
    {
        self.cursor.advance(size);
    }
}

/// A piece of a reply: `size` bytes from `start` in the reply's part `part`, which
/// go to guest memory at `address`.
#[derive(Clone, Copy, Debug, PartialEq, Eq, Structural)]
pub struct Segment {
    pub part: usize,
    pub start: usize,
    pub address: u64,
    pub size: usize,
}

/// How laying a reply out ends.
#[derive(Clone, Copy, Debug, PartialEq, Eq, Structural)]
pub enum ReplyEnd {
    /// The whole reply has a place.
    Complete,
    /// The chain has no room for the rest: the reply fails once the pieces are
    /// written, as one that could not be written whole.
    NoRoom,
    /// The piece that comes next would run past the end of the address space: the
    /// reply fails once the pieces are written, as one to memory that is not there.
    BadBuffer,
}

/// Where a reply goes.
pub struct ReplyPlan {
    /// The pieces to write, in order.
    pub segments: Vec<Segment>,
    pub end: ReplyEnd,
    /// The length of the reply.
    pub total: usize,
}

/// The length of parts of these lengths together.
pub open spec fn sum(lens: Seq<usize>) -> nat
    decreases lens.len(),
{
    if lens.len() == 0 {
        0
    } else {
        sum(lens.drop_last()) + lens.last() as nat
    }
}

/// The length of these pieces together.
pub open spec fn covered(segments: Seq<Segment>) -> nat
    decreases segments.len(),
{
    if segments.len() == 0 {
        0
    } else {
        covered(segments.drop_last()) + segments.last().size as nat
    }
}

/// How many bytes are left of the part of a reply that holds the byte `from`, from
/// it on.
pub open spec fn part_rest(lens: Seq<usize>, from: int) -> int
    decreases lens.len(),
{
    if lens.len() == 0 {
        0
    } else if from >= sum(lens.drop_last()) {
        sum(lens) - from
    } else {
        part_rest(lens.drop_last(), from)
    }
}

/// How many bytes are left of the writeable buffer that holds the writeable byte
/// `from`, from it on.
pub open spec fn buffer_rest(p: Seq<PayloadBuffer>, from: int) -> int
    decreases p.len(),
{
    if p.len() == 0 {
        0
    } else if from >= payload_length(p.drop_last(), true) {
        payload_length(p, true) - from
    } else {
        buffer_rest(p.drop_last(), from)
    }
}

/// How long the piece of a reply from its byte `from` on is: it ends with its part,
/// or with the buffer that it goes to.
pub open spec fn piece_len(p: Seq<PayloadBuffer>, lens: Seq<usize>, from: int) -> int {
    at_most(part_rest(lens, from), buffer_rest(p, from))
}

/// The piece of a reply from its byte `from` on has addresses.
pub open spec fn piece_fits(p: Seq<PayloadBuffer>, lens: Seq<usize>, from: int) -> bool {
    addressable(stream(p, true)[from], piece_len(p, lens, from))
}

/// The piece `s` carries the bytes of the reply from `from` on: they stand at its
/// `start` in its part, and go where the writeable bytes of the chain from `from`
/// on are.
pub open spec fn carries(p: Seq<PayloadBuffer>, lens: Seq<usize>, s: Segment, from: int) -> bool {
    &&& s.size > 0
    &&& s.size == piece_len(p, lens, from)
    &&& piece_fits(p, lens, from)
    &&& s.part < lens.len()
    &&& s.start + s.size <= lens[s.part as int]
    &&& sum(lens.take(s.part as int)) + s.start == from
    &&& from + s.size <= stream(p, true).len()
    &&& forall|k: int|
        0 <= k < s.size ==> #[trigger] stream(p, true)[from + k] == s.address + k
}

/// How laying a reply out ends after its first `from` bytes.
pub open spec fn ends(p: Seq<PayloadBuffer>, lens: Seq<usize>, from: int) -> Option<ReplyEnd> {
    if from == sum(lens) {
        Some(ReplyEnd::Complete)
    } else if from == reply_room(p) {
        Some(ReplyEnd::NoRoom)
    } else if !piece_fits(p, lens, from) {
        Some(ReplyEnd::BadBuffer)
    } else {
        None
    }
}

/// The pieces carry the reply from its first byte on, without a gap.
pub open spec fn laid_out(p: Seq<PayloadBuffer>, lens: Seq<usize>, segments: Seq<Segment>) -> bool {
    forall|j: int|
        0 <= j < segments.len() ==> carries(
            p,
            lens,
            #[trigger] segments[j],
            covered(segments.take(j)) as int,
        )
}

/// How many bytes of a reply a chain has room for.
pub open spec fn reply_room(p: Seq<PayloadBuffer>) -> nat {
    room(p, true, start(p, true))
}

proof fn lemma_sum_step(lens: Seq<usize>, b: int)
    requires
        0 <= b < lens.len(),
    ensures
        sum(lens.take(b + 1)) == sum(lens.take(b)) + lens[b],
{
    assert(lens.take(b + 1).drop_last() =~= lens.take(b));
}

proof fn lemma_sum_grows(lens: Seq<usize>, a: int, b: int)
    requires
        0 <= a <= b <= lens.len(),
    ensures
        sum(lens.take(a)) <= sum(lens.take(b)),
    decreases b - a,
{
    if a < b {
        lemma_sum_grows(lens, a, b - 1);
        lemma_sum_step(lens, b - 1);
    }
}

proof fn lemma_laid_out_push(
    p: Seq<PayloadBuffer>,
    lens: Seq<usize>,
    segments: Seq<Segment>,
    s: Segment,
)
    requires
        laid_out(p, lens, segments),
        carries(p, lens, s, covered(segments) as int),
    ensures
        laid_out(p, lens, segments.push(s)),
        covered(segments.push(s)) == covered(segments) + s.size,
{
    let t = segments.push(s);
    assert(t.drop_last() =~= segments);
    assert forall|j: int| 0 <= j < t.len() implies carries(
        p,
        lens,
        #[trigger] t[j],
        covered(t.take(j)) as int,
    ) by {
        if j < segments.len() {
            assert(t.take(j) =~= segments.take(j));
            assert(t[j] == segments[j]);
        } else {
            assert(t.take(j) =~= segments);
        }
    }
}

proof fn lemma_part_rest(lens: Seq<usize>, b: int, at: int)
    requires
        0 <= b < lens.len(),
        0 <= at < lens[b],
    ensures
        part_rest(lens, sum(lens.take(b)) + at) == lens[b] - at,
    decreases lens.len(),
{
    let t = lens.drop_last();
    if b == lens.len() - 1 {
        assert(lens.take(b) =~= t);
    } else {
        assert(lens.take(b) =~= t.take(b));
        lemma_sum_step(lens, b);
        lemma_sum_grows(lens, b + 1, lens.len() - 1);
        assert(lens.take(lens.len() - 1) =~= t);
        lemma_part_rest(t, b, at);
    }
}

proof fn lemma_buffer_rest(p: Seq<PayloadBuffer>, c: Place)
    requires
        0 <= c.at < p.len(),
        p[c.at].writeable,
        0 <= c.offset < p[c.at].length,
    ensures
        buffer_rest(p, passed(p, true, c)) == p[c.at].length - c.offset,
    decreases p.len(),
{
    let q = p.drop_last();
    if c.at == p.len() - 1 {
        assert(p.take(c.at) =~= q);
    } else {
        assert(p.take(c.at) =~= q.take(c.at));
        lemma_length_step(p, true, c.at);
        lemma_length_grows(p, true, c.at + 1, p.len() - 1);
        assert(p.take(p.len() - 1) =~= q);
        lemma_buffer_rest(q, c);
    }
}

/// What the writer offers for the rest of a part is the piece that comes next.
proof fn lemma_next_piece(p: Seq<PayloadBuffer>, lens: Seq<usize>, c: Place, b: int, at: int)
    requires
        standing(p, true, c),
        c.at < p.len(),
        c.offset < p[c.at].length,
        0 <= b < lens.len(),
        0 <= at < lens[b],
        sum(lens.take(b)) + at == passed(p, true, c),
    ensures
        ({
            let from = passed(p, true, c);
            &&& piece_len(p, lens, from) == at_most(p[c.at].length - c.offset, lens[b] - at)
            &&& stream(p, true)[from] == p[c.at].address + c.offset
            &&& piece_fits(p, lens, from) <==> offered(p, c, lens[b] - at) is Bytes
        }),
{
    lemma_part_rest(lens, b, at);
    lemma_buffer_rest(p, c);
    lemma_stream_at(p, true, c.at, c.offset);
}

/// A piece that starts where the writer stands, and is what it offers, goes on with
/// the reply.
proof fn lemma_next_segment(
    p: Seq<PayloadBuffer>,
    lens: Seq<usize>,
    segments: Seq<Segment>,
    c: Place,
    s: Segment,
)
    requires
        standing(p, true, c),
        laid_out(p, lens, segments),
        covered(segments) == passed(p, true, c),
        0 < s.size,
        holds(p, c, s.size as int),
        s.address == p[c.at].address + c.offset,
        s.part < lens.len(),
        s.start + s.size <= lens[s.part as int],
        sum(lens.take(s.part as int)) + s.start == covered(segments),
        s.size == piece_len(p, lens, covered(segments) as int),
        piece_fits(p, lens, covered(segments) as int),
    ensures
        laid_out(p, lens, segments.push(s)),
        covered(segments.push(s)) == covered(segments) + s.size,
{
    let from = covered(segments) as int;
    assert forall|k: int| 0 <= k < s.size implies #[trigger] stream(p, true)[from + k] == s.address
        + k by {
        lemma_stream_at(p, true, c.at, c.offset + k);
    }
    lemma_stream_at(p, true, c.at, c.offset + s.size - 1);
    assert(carries(p, lens, s, from));
    lemma_laid_out_push(p, lens, segments, s);
}

/// Sends the reply to a request, and counts what was sent.
pub struct PayloadReplySender<'a> {
    pub payload: &'a [PayloadBuffer],
    /// The bytes of the reply that was sent, as the used ring takes them: the low
    /// 32 bits. It stays 0 for a request without a reply.
    pub bytes_written: u32,
}

impl<'a> PayloadReplySender<'a> {
    /// The chain.
    pub open spec fn chain(&self) -> Seq<PayloadBuffer> {
        self.payload@
    }

    /// A sender that has sent nothing.
    pub fn new(payload: &'a [PayloadBuffer]) -> (s: PayloadReplySender<'a>)
        ensures
            s.chain() == payload@,
            s.bytes_written == 0,
    {
        PayloadReplySender { payload, bytes_written: 0 }
    }

    /// Lays a reply with parts of these lengths out over the writeable buffers.
    pub fn send(&self, lens: &[usize]) -> (plan: ReplyPlan)
        requires
            sum(lens@) <= usize::MAX,
        ensures
            plan.total == sum(lens@),
            laid_out(self.chain(), lens@, plan.segments@),
            covered(plan.segments@) <= sum(lens@),
            covered(plan.segments@) <= reply_room(self.chain()),
            ends(self.chain(), lens@, covered(plan.segments@) as int) == Some(plan.end),
    {
        let ghost p = self.chain();
        let mut w = PayloadWriter::new(self.payload);
        let mut segments: Vec<Segment> = Vec::new();
        let mut total: usize = 0;
        let mut end = ReplyEnd::Complete;
        let mut b: usize = 0;
        assert(lens@.take(0) =~= Seq::<usize>::empty());
        proof {
            lemma_seek(p, 0, true);
        }
        while b < lens.len()
            invariant
                b <= lens@.len(),
                p == self.chain(),
                w.wf(),
                w.chain() == p,
                laid_out(p, lens@, segments@),
                covered(segments@) == passed(p, true, w.place()),
                sum(lens@) <= usize::MAX,
                total == sum(lens@.take(b as int)),
                end == ReplyEnd::Complete ==> {
                    &&& covered(segments@) == total
                    &&& covered(segments@) + room(p, true, w.place()) == reply_room(p)
                },
                end != ReplyEnd::Complete ==> {
                    &&& covered(segments@) <= reply_room(p)
                    &&& covered(segments@) < total
                    &&& ends(p, lens@, covered(segments@) as int) == Some(end)
                },
            decreases lens@.len() - b,
        {
            let len: usize = lens[b];
            proof {
                lemma_sum_step(lens@, b as int);
                lemma_sum_grows(lens@, b + 1, lens@.len() as int);
                assert(lens@.take(lens@.len() as int) =~= lens@);
            }
            let mut at: usize = 0;
            while end == ReplyEnd::Complete && at < len
                invariant
                    at <= len,
                    b < lens@.len(),
                    len == lens@[b as int],
                    p == self.chain(),
                    w.wf(),
                    w.chain() == p,
                    laid_out(p, lens@, segments@),
                    covered(segments@) == passed(p, true, w.place()),
                    total == sum(lens@.take(b as int)),
                    total + len <= sum(lens@),
                    end == ReplyEnd::Complete ==> {
                        &&& covered(segments@) == total + at
                        &&& covered(segments@) + room(p, true, w.place()) == reply_room(p)
                    },
                    end != ReplyEnd::Complete ==> {
                        &&& covered(segments@) <= reply_room(p)
                        &&& covered(segments@) < total + len
                        &&& ends(p, lens@, covered(segments@) as int) == Some(end)
                    },
                decreases len - at + if end == ReplyEnd::Complete {
                    1int
                } else {
                    0int
                },
            {
                proof {
                    lemma_moved(p, true, w.place());
                    let d = moved(p, true, w.place());
                    if room(p, true, w.place()) > 0 {
                        lemma_next_piece(p, lens@, d, b as int, at as int);
                    }
                }
                let offer = w.write(len - at);
                assert(covered(segments@) == passed(p, true, w.place()));
                match offer {
                    Offer::End => {
                        end = ReplyEnd::NoRoom;
                    },
                    Offer::Bad => {
                        end = ReplyEnd::BadBuffer;
                    },
                    Offer::Bytes(t) => {
                        if t.size == 0 {
                            end = ReplyEnd::NoRoom;
                        } else {
                            let seg = Segment {
                                part: b,
                                start: at,
                                address: t.address,
                                size: t.size,
                            };
                            proof {
                                lemma_next_segment(p, lens@, segments@, w.place(), seg);
                            }
                            segments.push(seg);
                            w.write_done(t.size);
                            at = at + t.size;
                        }
                    },
                }
            }
            total = total + len;
            b = b + 1;
        }
        assert(lens@.take(b as int) =~= lens@);
        ReplyPlan { segments, end, total }
    }

    /// Counts a reply of `total` bytes that was written whole.
    pub fn sent(&mut self, total: usize)
        ensures
            final(self).chain() == old(self).chain(),
            final(self).bytes_written == total as int % 0x1_0000_0000,
    {
        let n: u64 = total as u64;
        let m: u32 = #[verifier::truncate] (n as u32);
        assert(m == n % 0x1_0000_0000) by (bit_vector)
            requires
                m == n as u32,
        ;
        self.bytes_written = m;
    }
}

// ---------------------------------------------------------------------------
// Laws
// ---------------------------------------------------------------------------

/// What a cursor offers is what comes next: the bytes of its direction, in their
/// order in the chain, from the first one that it has not passed. It offers none
/// only where it has passed them all, or where the last of the ones that it would
/// offer has no address.
pub proof fn law_offer_is_next_in_stream(
    p: Seq<PayloadBuffer>,
    writeable: bool,
    c: Place,
    want: nat,
)
    requires
        standing(p, writeable, c),
        want <= usize::MAX,
    ensures
        match offered(p, moved(p, writeable, c), want as int) {
            Offer::End => passed(p, writeable, c) == stream(p, writeable).len(),
            Offer::Bad => {
                let d = moved(p, writeable, c);
                let last = at_most(p[d.at].length - d.offset, if want == 0 {
                    1
                } else {
                    want as int
                }) - 1;
                &&& passed(p, writeable, c) + last < stream(p, writeable).len()
                &&& stream(p, writeable)[passed(p, writeable, c) + last] >= address_end()
            },
            Offer::Bytes(t) => {
                &&& passed(p, writeable, c) + t.size <= stream(p, writeable).len()
                &&& forall|k: int|
                    0 <= k < t.size ==> #[trigger] stream(p, writeable)[passed(p, writeable, c) + k]
                        == t.address + k
            },
        },
{
    let d = moved(p, writeable, c);
    lemma_moved(p, writeable, c);
    lemma_stream_len(p, writeable);
    if d.at == p.len() {
        assert(p.take(d.at) =~= p);
        assert(passed(p, writeable, c) == stream(p, writeable).len());
    } else if offered(p, d, want as int) is Bad {
        let last = at_most(p[d.at].length - d.offset, if want == 0 {
            1
        } else {
            want as int
        }) - 1;
        lemma_stream_at(p, writeable, d.at, d.offset + last);
    } else {
        let t = offered(p, d, want as int)->Bytes_0;
        assert forall|k: int| 0 <= k < t.size implies #[trigger] stream(p, writeable)[passed(
            p,
            writeable,
            c,
        ) + k] == t.address + k by {
            lemma_stream_at(p, writeable, d.at, d.offset + k);
        }
        if t.size > 0 {
            lemma_stream_at(p, writeable, d.at, d.offset + t.size - 1);
        } else {
            lemma_length_grows(p, writeable, d.at + 1, p.len() as int);
            lemma_length_step(p, writeable, d.at);
            assert(p.take(p.len() as int) =~= p);
        }
    }
}

/// A reader that has read and not scanned knows what is left: the readable bytes
/// of the chain that it has not passed.
pub proof fn law_reading_counts_what_is_left(r: PayloadReader<'_>)
    requires
        r.wf(),
        r.position() == passed(r.chain(), false, r.place()),
    ensures
        r.position() <= r.length(),
        r.length() - r.position() == stream(r.chain(), false).len() - passed(
            r.chain(),
            false,
            r.place(),
        ),
{
    let p = r.chain();
    let c = r.place();
    lemma_stream_len(p, false);
    assert(p.take(p.len() as int) =~= p);
    if c.at < p.len() {
        lemma_length_step(p, false, c.at);
        lemma_length_grows(p, false, c.at + 1, p.len() as int);
    }
}

/// Without empty writeable buffers a chain has room for exactly as many bytes as it
/// has writeable ones.
pub proof fn law_reply_room_is_the_writeable_length(p: Seq<PayloadBuffer>)
    requires
        forall|i: int| 0 <= i < p.len() && (#[trigger] p[i]).writeable ==> p[i].length > 0,
    ensures
        reply_room(p) == payload_length(p, true),
{
    lemma_seek(p, 0, true);
    lemma_room_from(p, 0);
    assert(p.take(0) =~= Seq::<PayloadBuffer>::empty());
}

proof fn lemma_room_from(p: Seq<PayloadBuffer>, from: int)
    requires
        0 <= from <= p.len(),
        forall|i: int| 0 <= i < p.len() && (#[trigger] p[i]).writeable ==> p[i].length > 0,
    ensures
        room_from(p, from, true) == payload_length(p, true) - payload_length(p.take(from), true),
    decreases p.len() - from,
{
    if from < p.len() {
        lemma_room_from(p, from + 1);
        lemma_length_step(p, true, from);
    } else {
        assert(p.take(from) =~= p);
    }
}

/// Where no writeable buffer runs past the end of the address space, a reply is laid
/// out whole exactly if there is room for it, and as far as there is room otherwise.
pub proof fn law_reply_goes_as_far_as_there_is_room(
    p: Seq<PayloadBuffer>,
    lens: Seq<usize>,
    segments: Seq<Segment>,
    end: ReplyEnd,
)
    requires
        forall|i: int|
            0 <= i < p.len() && (#[trigger] p[i]).writeable ==> p[i].address + p[i].length
                <= address_end(),
        laid_out(p, lens, segments),
        covered(segments) <= sum(lens),
        covered(segments) <= reply_room(p),
        ends(p, lens, covered(segments) as int) == Some(end),
    ensures
        end == if sum(lens) <= reply_room(p) {
            ReplyEnd::Complete
        } else {
            ReplyEnd::NoRoom
        },
        covered(segments) == if sum(lens) <= reply_room(p) {
            sum(lens)
        } else {
            reply_room(p)
        },
{
    let from = covered(segments) as int;
    if from < sum(lens) && from < reply_room(p) {
        let at = seek(p, 0, true);
        lemma_seek(p, 0, true);
        lemma_length_step(p, true, at);
        lemma_room_bound(p, at + 1);
        lemma_rest_has_addresses(p, from);
    }
}

proof fn lemma_room_bound(p: Seq<PayloadBuffer>, from: int)
    requires
        0 <= from <= p.len(),
    ensures
        room_from(p, from, true) <= payload_length(p, true) - payload_length(p.take(from), true),
    decreases p.len() - from,
{
    if from < p.len() {
        lemma_room_bound(p, from + 1);
        lemma_length_step(p, true, from);
        lemma_length_grows(p, true, from + 1, p.len() as int);
    }
    assert(p.take(p.len() as int) =~= p);
}

proof fn lemma_rest_has_addresses(p: Seq<PayloadBuffer>, from: int)
    requires
        forall|i: int|
            0 <= i < p.len() && (#[trigger] p[i]).writeable ==> p[i].address + p[i].length
                <= address_end(),
        0 <= from < payload_length(p, true),
    ensures
        buffer_rest(p, from) > 0,
        stream(p, true)[from] + buffer_rest(p, from) <= address_end(),
    decreases p.len(),
{
    let q = p.drop_last();
    lemma_stream_len(p, true);
    lemma_stream_len(q, true);
    if from < payload_length(q, true) {
        assert forall|i: int| 0 <= i < q.len() && (#[trigger] q[i]).writeable implies q[i].address
            + q[i].length <= address_end() by {
            assert(q[i] == p[i]);
        }
        lemma_rest_has_addresses(q, from);
    } else {
        assert(p.last() == p[p.len() - 1]);
    }
}

/// Buffers of the other direction are of no account to a walk: whatever they hold,
/// it goes over the same buffers, with the same room.
pub proof fn law_other_direction_is_of_no_account(
    p: Seq<PayloadBuffer>,
    q: Seq<PayloadBuffer>,
    from: int,
    writeable: bool,
)
    requires
        0 <= from <= p.len(),
        p.len() == q.len(),
        forall|i: int|
            0 <= i < p.len() ==> (#[trigger] p[i] == q[i] || (p[i].writeable != writeable
                && q[i].writeable != writeable)),
    ensures
        seek(p, from, writeable) == seek(q, from, writeable),
        room_from(p, from, writeable) == room_from(q, from, writeable),
    decreases p.len() - from,
{
    if from < p.len() {
        law_other_direction_is_of_no_account(p, q, from + 1, writeable);
        assert(p[from] == q[from] || (p[from].writeable != writeable && q[from].writeable
            != writeable));
    }
}

/// How a reply is laid out is settled by the chain and the parts: two layouts that
/// go as far as they can have the same pieces, and end alike.
pub proof fn law_layout_is_settled(
    p: Seq<PayloadBuffer>,
    lens: Seq<usize>,
    s: Seq<Segment>,
    t: Seq<Segment>,
)
    requires
        laid_out(p, lens, s),
        laid_out(p, lens, t),
        covered(s) <= sum(lens) && covered(s) <= reply_room(p),
        covered(t) <= sum(lens) && covered(t) <= reply_room(p),
        ends(p, lens, covered(s) as int) is Some,
        ends(p, lens, covered(t) as int) is Some,
    ensures
        s == t,
        ends(p, lens, covered(s) as int) == ends(p, lens, covered(t) as int),
{
    if s.len() <= t.len() {
        lemma_no_longer_layout(p, lens, s, t);
    } else {
        lemma_no_longer_layout(p, lens, t, s);
    }
}

/// The two layouts agree on their first `k` pieces.
proof fn lemma_layouts_agree(
    p: Seq<PayloadBuffer>,
    lens: Seq<usize>,
    s: Seq<Segment>,
    t: Seq<Segment>,
    k: int,
)
    requires
        laid_out(p, lens, s),
        laid_out(p, lens, t),
        0 <= k <= s.len(),
        k <= t.len(),
    ensures
        s.take(k) == t.take(k),
    decreases k,
{
    if k > 0 {
        lemma_layouts_agree(p, lens, s, t, k - 1);
        let (a, b) = (s[k - 1], t[k - 1]);
        let from = covered(s.take(k - 1)) as int;
        assert(carries(p, lens, a, from));
        assert(carries(p, lens, b, from));
        if a.part < b.part {
            lemma_sum_step(lens, a.part as int);
            lemma_sum_grows(lens, a.part + 1, b.part as int);
        } else if b.part < a.part {
            lemma_sum_step(lens, b.part as int);
            lemma_sum_grows(lens, b.part + 1, a.part as int);
        }
        assert(stream(p, true)[from + 0] == a.address + 0);
        assert(stream(p, true)[from + 0] == b.address + 0);
        assert(a == b);
        assert(s.take(k) =~= s.take(k - 1).push(a));
        assert(t.take(k) =~= t.take(k - 1).push(b));
    } else {
        assert(s.take(k) =~= t.take(k));
    }
}

/// A layout that goes as far as it can has no longer one beside it.
proof fn lemma_no_longer_layout(
    p: Seq<PayloadBuffer>,
    lens: Seq<usize>,
    s: Seq<Segment>,
    t: Seq<Segment>,
)
    requires
        laid_out(p, lens, s),
        laid_out(p, lens, t),
        s.len() <= t.len(),
        covered(t) <= reply_room(p),
        ends(p, lens, covered(s) as int) is Some,
    ensures
        s == t,
{
    let n = s.len() as int;
    lemma_layouts_agree(p, lens, s, t, n);
    assert(s.take(n) =~= s);
    if n < t.len() {
        let next = t[n];
        let from = covered(s) as int;
        assert(carries(p, lens, next, covered(t.take(n)) as int));
        lemma_sum_step(lens, next.part as int);
        lemma_sum_grows(lens, next.part + 1, lens.len() as int);
        assert(lens.take(lens.len() as int) =~= lens);
        lemma_covered_grows(t, n + 1);
        assert(t.take(n + 1).drop_last() =~= t.take(n));
        assert(covered(t.take(n + 1)) == from + next.size);
    } else {
        assert(t.take(n) =~= t);
    }
}

proof fn lemma_covered_grows(t: Seq<Segment>, k: int)
    requires
        0 <= k <= t.len(),
    ensures
        covered(t.take(k)) <= covered(t),
    decreases t.len() - k,
{
    if k < t.len() {
        lemma_covered_grows(t, k + 1);
        assert(t.take(k + 1).drop_last() =~= t.take(k));
    } else {
        assert(t.take(k) =~= t);
    }
}

/// A scan that goes over several buffers finds what one over their concatenation
/// finds: as long as `byte` has not occurred, what stands before it extends over
/// the buffers.
pub proof fn law_scan_goes_over_buffers(found: Seq<u8>, bytes: Seq<u8>, byte: u8)
    requires
        !found.contains(byte),
    ensures
        before(found + bytes, byte) == found + before(bytes, byte),
        (found + bytes).contains(byte) <==> bytes.contains(byte),
    decreases found.len(),
{
    let all = found + bytes;
    if found.len() == 0 {
        assert(all =~= bytes);
        assert(found + before(bytes, byte) =~= before(bytes, byte));
    } else {
        let rest = found.drop_first();
        assert(found.contains(found[0]));
        assert forall|b: u8| rest.contains(b) implies found.contains(b) by {
            let j = choose|j: int| 0 <= j < rest.len() && rest[j] == b;
            assert(found[j + 1] == b);
        }
        law_scan_goes_over_buffers(rest, bytes, byte);
        assert(all.drop_first() =~= rest + bytes);
        assert(seq![found[0]] + (rest + before(bytes, byte)) =~= found + before(bytes, byte));
        if bytes.contains(byte) {
            let j = choose|j: int| 0 <= j < bytes.len() && bytes[j] == byte;
            assert(all[found.len() + j] == byte);
        }
        if all.contains(byte) {
            let j = choose|j: int| 0 <= j < all.len() && all[j] == byte;
            if j < found.len() {
                assert(found[j] == byte);
            } else {
                assert(bytes[j - found.len()] == byte);
            }
        }
    }
}

/// What stands before the first `byte` does not hold it, and is followed by it.
pub proof fn law_scan_stops_at_the_first(s: Seq<u8>, byte: u8)
    ensures
        !before(s, byte).contains(byte),
        before(s, byte).len() <= s.len(),
        before(s, byte) == s.take(before(s, byte).len() as int),
        s.contains(byte) ==> before(s, byte).len() < s.len() && s[before(s, byte).len() as int]
            == byte,
        !s.contains(byte) ==> before(s, byte) == s,
    decreases s.len(),
{
    if s.len() > 0 && s[0] != byte {
        let t = s.drop_first();
        law_scan_stops_at_the_first(t, byte);
        let b = before(s, byte);
        assert(b =~= s.take(b.len() as int));
        if b.contains(byte) {
            let j = choose|j: int| 0 <= j < b.len() && b[j] == byte;
            assert(before(t, byte)[j - 1] == byte);
        }
        if s.contains(byte) {
            let j = choose|j: int| 0 <= j < s.len() && s[j] == byte;
            assert(t[j - 1] == byte);
        } else {
            if t.contains(byte) {
                let j = choose|j: int| 0 <= j < t.len() && t[j] == byte;
                assert(s[j + 1] == byte);
            }
            assert(b =~= s);
        }
    } else if s.len() > 0 {
        assert(s.take(0) =~= Seq::<u8>::empty());
        assert(s[0] == byte);
        assert(s.contains(byte));
    } else {
        assert(s.take(0) =~= s);
    }
}

// ---------------------------------------------------------------------------
// Calls
// ---------------------------------------------------------------------------

/// The bytes of a chain are those of its pieces, one after the other, and those of a
/// buffer of the direction are its addresses, upwards; a buffer of the other direction
/// has none.
pub proof fn law_stream_is_made_up_of_buffers(
    p: Seq<PayloadBuffer>,
    q: Seq<PayloadBuffer>,
    b: PayloadBuffer,
    writeable: bool,
)
    ensures
        stream(p + q, writeable) == stream(p, writeable) + stream(q, writeable),
        payload_length(p + q, writeable) == payload_length(p, writeable) + payload_length(
            q,
            writeable,
        ),
        b.writeable == writeable ==> {
            &&& payload_length(seq![b], writeable) == b.length
            &&& stream(seq![b], writeable).len() == b.length
            &&& forall|i: int|
                0 <= i < b.length ==> #[trigger] stream(seq![b], writeable)[i] == b.address + i
        },
        b.writeable != writeable ==> payload_length(seq![b], writeable) == 0 && stream(
            seq![b],
            writeable,
        ).len() == 0,
    decreases q.len(),
{
    let one = seq![b];
    assert(one.drop_last() =~= Seq::<PayloadBuffer>::empty());
    assert(stream(one.drop_last(), writeable) =~= Seq::<int>::empty());
    assert(payload_length(one.drop_last(), writeable) == 0);
    if q.len() == 0 {
        assert(p + q =~= p);
        assert(stream(p, writeable) + stream(q, writeable) =~= stream(p, writeable));
    } else {
        law_stream_is_made_up_of_buffers(p, q.drop_last(), b, writeable);
        assert((p + q).drop_last() =~= p + q.drop_last());
        assert((p + q).last() == q.last());
        assert(stream(p + q, writeable) =~= stream(p, writeable) + stream(q, writeable));
    }
}

/// The length of a reply is that of its parts, and the length of a layout is that of
/// its pieces.
pub proof fn law_lengths_add_up(
    a: Seq<usize>,
    b: Seq<usize>,
    n: usize,
    s: Seq<Segment>,
    t: Seq<Segment>,
    g: Segment,
)
    ensures
        sum(a + b) == sum(a) + sum(b),
        sum(seq![n]) == n,
        covered(s + t) == covered(s) + covered(t),
        covered(seq![g]) == g.size,
    decreases b.len() + t.len(),
{
    assert(seq![n].drop_last() =~= Seq::<usize>::empty());
    assert(sum(seq![n].drop_last()) == 0);
    assert(seq![g].drop_last() =~= Seq::<Segment>::empty());
    assert(covered(seq![g].drop_last()) == 0);
    if b.len() > 0 {
        law_lengths_add_up(a, b.drop_last(), n, s, t, g);
        assert((a + b).drop_last() =~= a + b.drop_last());
    } else {
        assert(a + b =~= a);
        if t.len() > 0 {
            law_lengths_add_up(a, b, n, s, t.drop_last(), g);
        }
    }
    if t.len() > 0 {
        if b.len() > 0 {
            law_lengths_add_up(a, b.drop_last(), n, s, t, g);
        }
        assert((s + t).drop_last() =~= s + t.drop_last());
    } else {
        assert(s + t =~= s);
    }
}

/// `at` is the first buffer of the direction from `from` on, or the end of the chain.
pub open spec fn first_of(p: Seq<PayloadBuffer>, from: int, writeable: bool, at: int) -> bool {
    &&& from <= at <= p.len()
    &&& forall|j: int| from <= j < at ==> (#[trigger] p[j]).writeable != writeable
    &&& at < p.len() ==> p[at].writeable == writeable
}

proof fn lemma_seek_first(p: Seq<PayloadBuffer>, from: int, writeable: bool)
    requires
        0 <= from <= p.len(),
    ensures
        first_of(p, from, writeable, seek(p, from, writeable)),
    decreases p.len() - from,
{
    if from < p.len() && p[from].writeable != writeable {
        lemma_seek_first(p, from + 1, writeable);
    }
}

/// A cursor that stood at `c` stands at `d` before it offers: where it stood, unless
/// that was the end of a buffer; then at the start of the next one of its direction.
pub open spec fn goes_on(p: Seq<PayloadBuffer>, writeable: bool, c: Place, d: Place) -> bool {
    if c.at < p.len() && c.offset == p[c.at].length {
        first_of(p, c.at + 1, writeable, d.at) && d.offset == 0
    } else {
        d.at == c.at && d.offset == c.offset
    }
}

/// What is offered at `d` for `want` bytes: the end of the chain is told; otherwise
/// the bytes from there to the end of the buffer, `want` at most, unless the first or
/// the last of them is past the last address.
pub open spec fn offers(p: Seq<PayloadBuffer>, d: Place, want: int, r: Offer) -> bool {
    &&& r is End <==> d.at == p.len()
    &&& d.at < p.len() ==> {
        let address = p[d.at].address + d.offset;
        let left = p[d.at].length - d.offset;
        let size = if left < want {
            left
        } else {
            want
        };
        &&& r is Bad <==> address > u64::MAX || address + size - 1 > u64::MAX
        &&& r matches Offer::Bytes(t) ==> t.address == address && t.size == size
    }
}

proof fn lemma_goes_on(p: Seq<PayloadBuffer>, writeable: bool, c: Place)
    requires
        standing(p, writeable, c),
    ensures
        goes_on(p, writeable, c, moved(p, writeable, c)),
        moved(p, writeable, c).at <= p.len(),
        moved(p, writeable, c).at < p.len() ==> moved(p, writeable, c).offset <= p[moved(
            p,
            writeable,
            c,
        ).at].length,
        moved(p, writeable, c).offset >= 0,
{
    if c.at < p.len() && c.offset == p[c.at].length {
        lemma_seek_first(p, c.at + 1, writeable);
    }
}

/// A cursor starts at the first buffer of its direction. It offers what comes next in
/// its buffer, and from the end of it goes on to the next one of its direction. It
/// passes what it is told to, and stays in its buffer.
pub proof fn law_cursor_walks_its_direction<'a>(
    payload: &'a [PayloadBuffer],
    writeable: bool,
    fresh: PayloadCursor<'a>,
    c: &mut PayloadCursor<'a>,
    want: usize,
    r: Offer,
    d: &mut PayloadCursor<'a>,
    size: usize,
    u: (),
)
    requires
        call_ensures(PayloadCursor::<'a>::new, (payload, writeable), fresh),
        c.wf(),
        call_ensures(PayloadCursor::<'a>::offer, (c, want), r),
        call_ensures(PayloadCursor::<'a>::advance, (d, size), u),
    ensures
        fresh.chain() == payload@ && fresh.direction() == writeable,
        first_of(payload@, 0, writeable, fresh.place().at) && fresh.place().offset == 0,
        final(c).chain() == old(c).chain() && final(c).direction() == old(c).direction(),
        goes_on(old(c).chain(), old(c).direction(), old(c).place(), final(c).place()),
        offers(old(c).chain(), final(c).place(), want as int, r),
        final(d).chain() == old(d).chain() && final(d).direction() == old(d).direction(),
        final(d).place().at == old(d).place().at,
        final(d).place().offset == old(d).place().offset + size,
{
    lemma_seek_first(payload@, 0, writeable);
    lemma_goes_on(c.chain(), c.direction(), c.place());
}

/// A reader starts at the first readable buffer, with nothing read. It offers as a
/// cursor does; what is passed is counted. What is left is the readable length without
/// what was read.
pub proof fn law_reader_walks_the_readable_buffers<'a>(
    payload: &'a [PayloadBuffer],
    ok: bool,
    fresh: PayloadReader<'a>,
    c: &mut PayloadReader<'a>,
    want: usize,
    r: Offer,
    d: &mut PayloadReader<'a>,
    size: usize,
    u: (),
    e: &PayloadReader<'a>,
    fits: bool,
    has: bool,
    left: usize,
)
    requires
        call_ensures(chain_ok, (payload,), ok),
        call_ensures(PayloadReader::<'a>::new, (payload,), fresh),
        c.wf(),
        call_ensures(PayloadReader::<'a>::read, (c, want), r),
        call_ensures(PayloadReader::<'a>::read_done, (d, size), u),
        call_ensures(PayloadReader::<'a>::position_fits, (e, size), fits),
        call_ensures(PayloadReader::<'a>::has_remaining_len, (e,), has),
        call_ensures(PayloadReader::<'a>::remaining_len, (e,), left),
    ensures
        ok <==> payload_length(payload@, false) <= usize::MAX,
        fresh.chain() == payload@ && fresh.position() == 0,
        fresh.length() == payload_length(payload@, false),
        first_of(payload@, 0, false, fresh.place().at) && fresh.place().offset == 0,
        final(c).chain() == old(c).chain() && final(c).position() == old(c).position(),
        final(c).length() == old(c).length(),
        goes_on(old(c).chain(), false, old(c).place(), final(c).place()),
        offers(old(c).chain(), final(c).place(), want as int, r),
        final(d).chain() == old(d).chain() && final(d).length() == old(d).length(),
        final(d).position() == old(d).position() + size,
        final(d).place().at == old(d).place().at,
        final(d).place().offset == old(d).place().offset + size,
        fits <==> e.position() + size <= usize::MAX,
        has <==> e.position() <= e.length(),
        left == e.length() - e.position(),
{
    lemma_seek_first(payload@, 0, false);
    lemma_goes_on(c.chain(), false, c.place());
}

/// A scan is offered the whole rest of a buffer, and ends at the end of the chain or on
/// an empty buffer. It takes what stands before the first occurrence of the byte, and
/// the reader stands just behind that one; without one, everything is taken, and the
/// reader stands behind the buffer. What was looked at is counted as read.
pub proof fn law_scan_takes_what_stands_before<'a>(
    c: &mut PayloadReader<'a>,
    r: Offer,
    d: &mut PayloadReader<'a>,
    bytes: &[u8],
    byte: u8,
    found: &mut Vec<u8>,
    over: bool,
    i: int,
)
    requires
        c.wf(),
        call_ensures(PayloadReader::<'a>::read_until, (c,), r),
        call_ensures(PayloadReader::<'a>::until_done, (d, bytes, byte, found), over),
        0 <= i <= bytes@.len(),
        forall|j: int| 0 <= j < i ==> (#[trigger] bytes@[j]) != byte,
        i < bytes@.len() ==> bytes@[i] == byte,
    ensures
        final(c).chain() == old(c).chain() && final(c).position() == old(c).position(),
        goes_on(old(c).chain(), false, old(c).place(), final(c).place()),
        r is End <==> final(c).place().at == old(c).chain().len() || old(c).chain()[final(
            c).place().at].length == final(c).place().offset,
        r matches Offer::Bytes(t) ==> t.address == old(c).chain()[final(c).place().at].address
            + final(c).place().offset && t.size == old(c).chain()[final(c).place().at].length
            - final(c).place().offset && t.size > 0,
        over <==> i < bytes@.len(),
        final(found)@ == old(found)@ + bytes@.take(i),
        final(d).place().at == old(d).place().at,
        over ==> final(d).place().offset == old(d).place().offset + i + 1,
        !over ==> final(d).place().offset == old(d).place().offset + bytes@.len(),
        final(d).position() == old(d).position() + bytes@.len(),
        final(d).chain() == old(d).chain() && final(d).length() == old(d).length(),
{
    lemma_goes_on(c.chain(), false, c.place());
    lemma_moved(c.chain(), false, c.place());
    lemma_before(bytes@, byte, i);
    if i < bytes@.len() {
        assert(bytes@.contains(byte));
    }
}

/// A writer starts at the first writeable buffer, and offers and passes as a cursor
/// does.
pub proof fn law_writer_walks_the_writeable_buffers<'a>(
    payload: &'a [PayloadBuffer],
    fresh: PayloadWriter<'a>,
    c: &mut PayloadWriter<'a>,
    want: usize,
    r: Offer,
    d: &mut PayloadWriter<'a>,
    size: usize,
    u: (),
)
    requires
        call_ensures(PayloadWriter::<'a>::new, (payload,), fresh),
        c.wf(),
        call_ensures(PayloadWriter::<'a>::write, (c, want), r),
        call_ensures(PayloadWriter::<'a>::write_done, (d, size), u),
    ensures
        fresh.chain() == payload@,
        first_of(payload@, 0, true, fresh.place().at) && fresh.place().offset == 0,
        final(c).chain() == old(c).chain(),
        goes_on(old(c).chain(), true, old(c).place(), final(c).place()),
        offers(old(c).chain(), final(c).place(), want as int, r),
        final(d).chain() == old(d).chain(),
        final(d).place().at == old(d).place().at,
        final(d).place().offset == old(d).place().offset + size,
{
    lemma_seek_first(payload@, 0, true);
    lemma_goes_on(c.chain(), true, c.place());
}

/// The rest of a writeable buffer reaches to the end of that buffer.
proof fn lemma_buffer_end(p: Seq<PayloadBuffer>, from: int) -> (b: int)
    requires
        0 <= from < payload_length(p, true),
    ensures
        0 <= b < p.len(),
        p[b].writeable,
        payload_length(p.take(b), true) <= from,
        from + buffer_rest(p, from) == payload_length(p.take(b + 1), true),
    decreases p.len(),
{
    let q = p.drop_last();
    if from < payload_length(q, true) {
        let b = lemma_buffer_end(q, from);
        assert(q.take(b) =~= p.take(b));
        assert(q.take(b + 1) =~= p.take(b + 1));
        b
    } else {
        let b = p.len() - 1;
        assert(p.take(b) =~= q);
        assert(p.take(b + 1) =~= p);
        b
    }
}

/// A reply is laid out in its own order: its byte `k`, which stands in a part where the
/// parts before it end, goes to the writeable byte `k` of the chain. A piece ends
/// with its part or with its buffer, and never before.
pub proof fn law_reply_bytes_go_in_order<'a>(
    s: &PayloadReplySender<'a>,
    lens: &[usize],
    plan: ReplyPlan,
    j: int,
    k: int,
)
    requires
        sum(lens@) <= usize::MAX,
        call_ensures(PayloadReplySender::<'a>::send, (s, lens), plan),
        0 <= j < plan.segments@.len(),
        0 <= k < plan.segments@[j].size,
    ensures
        plan.total == sum(lens@),
        ({
            let g = plan.segments@[j];
            let from = covered(plan.segments@.take(j));
            &&& g.part < lens@.len() && g.start + g.size <= lens@[g.part as int]
            &&& sum(lens@.take(g.part as int)) + g.start == from
            &&& from + k < stream(s.payload@, true).len()
            &&& g.address + k == stream(s.payload@, true)[from + k]
            &&& g.address + k <= u64::MAX
            &&& g.start + g.size == lens@[g.part as int] || exists|b: int|
                0 <= b < s.payload@.len() && (#[trigger] s.payload@[b]).writeable && from + g.size
                    == payload_length(s.payload@.take(b + 1), true)
        }),
{
    let p = s.payload@;
    let l = lens@;
    let g = plan.segments@[j];
    let from = covered(plan.segments@.take(j)) as int;
    assert(carries(p, l, g, from));
    assert(stream(p, true)[from + k] == g.address + k);
    lemma_stream_len(p, true);
    lemma_part_rest(l, g.part as int, g.start as int);
    assert(stream(p, true)[from + 0] == g.address + 0);
    if g.size != l[g.part as int] - g.start {
        let b = lemma_buffer_end(p, from);
        assert(p[b].writeable);
    }
}

/// Where every writeable buffer holds bytes, and none of them runs past the end of the
/// address space, a reply is laid out as far as there are writeable bytes: whole exactly
/// if it is no longer than they are.
pub proof fn law_reply_fills_the_writeable_bytes<'a>(
    s: &PayloadReplySender<'a>,
    lens: &[usize],
    plan: ReplyPlan,
)
    requires
        sum(lens@) <= usize::MAX,
        call_ensures(PayloadReplySender::<'a>::send, (s, lens), plan),
        forall|i: int|
            0 <= i < s.payload@.len() && (#[trigger] s.payload@[i]).writeable
                ==> s.payload@[i].length > 0 && s.payload@[i].address + s.payload@[i].length - 1
                <= u64::MAX,
    ensures
        sum(lens@) <= payload_length(s.payload@, true) ==> plan.end == ReplyEnd::Complete
            && covered(plan.segments@) == sum(lens@),
        sum(lens@) > payload_length(s.payload@, true) ==> plan.end == ReplyEnd::NoRoom && covered(
            plan.segments@,
        ) == payload_length(s.payload@, true),
{
    law_reply_room_is_the_writeable_length(s.payload@);
    law_reply_goes_as_far_as_there_is_room(s.payload@, lens@, plan.segments@, plan.end);
}

/// A layout is complete exactly if its pieces are as long as the reply. One that stops
/// for a bad buffer stops where the next byte, or the last one of its piece, would have
/// no address.
pub proof fn law_layout_stops_only_where_it_must<'a>(
    s: &PayloadReplySender<'a>,
    lens: &[usize],
    plan: ReplyPlan,
    fresh: PayloadReplySender<'a>,
    payload: &'a [PayloadBuffer],
    t: &mut PayloadReplySender<'a>,
    total: usize,
    u: (),
)
    requires
        sum(lens@) <= usize::MAX,
        call_ensures(PayloadReplySender::<'a>::send, (s, lens), plan),
        call_ensures(PayloadReplySender::<'a>::new, (payload,), fresh),
        call_ensures(PayloadReplySender::<'a>::sent, (t, total), u),
    ensures
        plan.end == ReplyEnd::Complete <==> covered(plan.segments@) == sum(lens@),
        covered(plan.segments@) <= sum(lens@),
        plan.end == ReplyEnd::BadBuffer ==> {
            let from = covered(plan.segments@) as int;
            &&& stream(s.payload@, true)[from] > u64::MAX || stream(s.payload@, true)[from]
                + buffer_rest(s.payload@, from) - 1 > u64::MAX
        },
        fresh.payload@ == payload@ && fresh.bytes_written == 0,
        final(t).payload@ == old(t).payload@,
        total < 0x1_0000_0000 ==> final(t).bytes_written == total,
        (total - final(t).bytes_written) % 0x1_0000_0000 == 0,
{
}

/// An empty writeable buffer ends the room that a chain has for a reply, unless it is
/// the first: there is room for what stands before it.
pub proof fn law_empty_buffer_ends_the_room(
    a: Seq<PayloadBuffer>,
    e: PayloadBuffer,
    z: Seq<PayloadBuffer>,
)
    requires
        e.writeable && e.length == 0,
        forall|i: int| 0 <= i < a.len() && (#[trigger] a[i]).writeable ==> a[i].length > 0,
        forall|i: int| 0 <= i < z.len() && (#[trigger] z[i]).writeable ==> z[i].length > 0,
    ensures
        payload_length(a, true) > 0 ==> reply_room(a + seq![e] + z) == payload_length(a, true),
        payload_length(a, true) == 0 ==> reply_room(a + seq![e] + z) == payload_length(z, true),
{
    let p = a + seq![e] + z;
    lemma_room_until(a, e, z, 0);
    lemma_room_behind(a, e, z, a.len() as int + 1);
    lemma_seek(p, 0, true);
    lemma_seek_first(p, 0, true);
    let at = seek(p, 0, true);
    assert(p[a.len() as int] == e);
    assert(a.take(0) =~= Seq::<PayloadBuffer>::empty());
    assert(z.take(0) =~= Seq::<PayloadBuffer>::empty());
    if at < a.len() {
        assert(p[at] == a[at]);
        lemma_length_step(a, true, at);
        lemma_length_grows(a, true, at + 1, a.len() as int);
        assert(a.take(a.len() as int) =~= a);
        lemma_room_until(a, e, z, at);
        lemma_room_until(a, e, z, at + 1);
        assert(payload_length(a, true) > 0);
    } else {
        assert(at == a.len());
        assert forall|i: int| 0 <= i < a.len() implies !(#[trigger] a[i]).writeable by {
            assert(p[i] == a[i]);
        }
        lemma_none_writeable(a);
    }
}

proof fn lemma_none_writeable(a: Seq<PayloadBuffer>)
    requires
        forall|i: int| 0 <= i < a.len() ==> !(#[trigger] a[i]).writeable,
    ensures
        payload_length(a, true) == 0,
    decreases a.len(),
{
    if a.len() > 0 {
        assert(!a[a.len() - 1].writeable);
        lemma_none_writeable(a.drop_last());
    }
}

proof fn lemma_room_until(a: Seq<PayloadBuffer>, e: PayloadBuffer, z: Seq<PayloadBuffer>, from: int)
    requires
        e.writeable && e.length == 0,
        forall|i: int| 0 <= i < a.len() && (#[trigger] a[i]).writeable ==> a[i].length > 0,
        0 <= from <= a.len(),
    ensures
        room_from(a + seq![e] + z, from, true) == payload_length(a, true) - payload_length(
            a.take(from),
            true,
        ),
    decreases a.len() - from,
{
    let p = a + seq![e] + z;
    if from < a.len() {
        lemma_room_until(a, e, z, from + 1);
        lemma_length_step(a, true, from);
        assert(p[from] == a[from]);
    } else {
        assert(p[from] == e);
        assert(a.take(from) =~= a);
    }
}

proof fn lemma_room_behind(
    a: Seq<PayloadBuffer>,
    e: PayloadBuffer,
    z: Seq<PayloadBuffer>,
    from: int,
)
    requires
        forall|i: int| 0 <= i < z.len() && (#[trigger] z[i]).writeable ==> z[i].length > 0,
        a.len() + 1 <= from <= a.len() + 1 + z.len(),
    ensures
        room_from(a + seq![e] + z, from, true) == payload_length(z, true) - payload_length(
            z.take(from - a.len() - 1),
            true,
        ),
    decreases a.len() + 1 + z.len() - from,
{
    let p = a + seq![e] + z;
    let k = from - a.len() - 1;
    if k < z.len() {
        lemma_room_behind(a, e, z, from + 1);
        lemma_length_step(z, true, k);
        assert(p[from] == z[k]);
    } else {
        assert(z.take(k) =~= z);
    }
}

/// The rest of a part reaches to the end of that part.
proof fn lemma_part_end(lens: Seq<usize>, from: int) -> (b: int)
    requires
        0 <= from < sum(lens),
    ensures
        0 <= b < lens.len(),
        sum(lens.take(b)) <= from < sum(lens.take(b + 1)),
        from + part_rest(lens, from) == sum(lens.take(b + 1)),
    decreases lens.len(),
{
    let t = lens.drop_last();
    if from < sum(t) {
        let b = lemma_part_end(t, from);
        assert(t.take(b) =~= lens.take(b));
        assert(t.take(b + 1) =~= lens.take(b + 1));
        b
    } else {
        let b = lens.len() - 1;
        assert(lens.take(b) =~= t);
        assert(lens.take(b + 1) =~= lens);
        b
    }
}

/// A layout stops for a bad buffer only before a piece that has no addresses: the piece
/// that would go on from there to the end of its part or of its buffer, whichever comes
/// first. It stops for want of room only where there is none left.
pub proof fn law_bad_buffer_is_one_past_the_end<'a>(
    s: &PayloadReplySender<'a>,
    lens: &[usize],
    plan: ReplyPlan,
) -> (r: (int, int))
    requires
        sum(lens@) <= usize::MAX,
        call_ensures(PayloadReplySender::<'a>::send, (s, lens), plan),
    ensures
        covered(plan.segments@) <= reply_room(s.payload@),
        plan.end == ReplyEnd::NoRoom ==> covered(plan.segments@) == reply_room(s.payload@),
        plan.end == ReplyEnd::BadBuffer ==> {
            let p = s.payload@;
            let from = covered(plan.segments@) as int;
            let part_end = sum(lens@.take(r.0 + 1)) as int;
            let buffer_end = payload_length(p.take(r.1 + 1), true) as int;
            let end = if part_end < buffer_end {
                part_end
            } else {
                buffer_end
            };
            &&& from < reply_room(p)
            &&& 0 <= r.0 < lens@.len() && sum(lens@.take(r.0)) <= from < part_end
            &&& 0 <= r.1 < p.len() && payload_length(p.take(r.1), true) <= from < buffer_end
            &&& stream(p, true)[from] + (end - from) - 1 > u64::MAX
        },
{
    let p = s.payload@;
    let from = covered(plan.segments@) as int;
    if plan.end == ReplyEnd::BadBuffer {
        let at = seek(p, 0, true);
        lemma_seek(p, 0, true);
        assert(p.take(0) =~= Seq::<PayloadBuffer>::empty());
        lemma_length_step(p, true, at);
        lemma_room_bound(p, at + 1);
        let b = lemma_part_end(lens@, from);
        let c = lemma_buffer_end(p, from);
        lemma_rest_positive(p, from);
        (b, c)
    } else {
        (0, 0)
    }
}

proof fn lemma_rest_positive(p: Seq<PayloadBuffer>, from: int)
    requires
        0 <= from < payload_length(p, true),
    ensures
        buffer_rest(p, from) > 0,
    decreases p.len(),
{
    if from < payload_length(p.drop_last(), true) {
        lemma_rest_positive(p.drop_last(), from);
    }
}

} // verus!
