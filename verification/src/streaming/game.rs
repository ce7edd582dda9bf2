//! Models of the game's streaming structures.

use vstd::prelude::*;

verus! {

/// The number of bytes in one archive sector.
pub const SECTOR_SIZE: usize = 2048;

/// Describes the position and size of a resource in an image file.
#[derive(Clone, Copy, PartialEq, Eq, Debug)]
pub struct ImageRegion {
    /// The offset of the resource from the start of its parent image file.
    pub offset_sectors: usize,
    /// The size of the resource, in sectors.
    pub size_sectors: usize,
}

impl ImageRegion {
    /// Returns the offset of the region in bytes.
    pub fn offset_bytes(self) -> (bytes: usize)
        requires
            self.offset_sectors * 2048 <= usize::MAX,
        ensures
            bytes == self.offset_sectors * 2048,
    {
        self.offset_sectors * SECTOR_SIZE
    }

    /// Returns the size of the region in bytes.
    pub fn size_bytes(self) -> (bytes: usize)
        requires
            self.size_sectors * 2048 <= usize::MAX,
        ensures
            bytes == self.size_sectors * 2048,
    {
        self.size_sectors * SECTOR_SIZE
    }
}

/// A position in the streaming system: an image index in the top 8 bits and
/// a sector offset in the bottom 24 bits.
#[derive(Clone, Copy, PartialEq, Eq, Debug)]
pub struct StreamSource(pub u32);

/// The packed form of an image index and a sector offset.
pub open spec fn spec_pack_source(image_index: u8, sector_offset: u32) -> u32 {
    ((image_index as u32) << 24u32) | sector_offset
}

impl StreamSource {
    pub fn new(image_index: u8, sector_offset: u32) -> (s: StreamSource)
        ensures
            s.0 == spec_pack_source(image_index, sector_offset),
    {
        StreamSource(((image_index as u32) << 24u32) | sector_offset)
    }

    /// The index of the image that the resource is from (the top 8 bits).
    pub fn image_index(self) -> (i: u8)
        ensures
            i == (self.0 >> 24u32) as u8,
    {
        (self.0 >> 24u32) as u8
    }

    /// The number of sectors from the beginning of the image (the bottom 24 bits).
    pub fn sector_offset(self) -> (o: u32)
        ensures
            o == self.0 & 0xffffffu32,
    {
        self.0 & 0xffffffu32
    }

    /// Returns the 32-bit representation of the position.
    pub fn as_u32(self) -> (v: u32)
        ensures
            v == self.0,
    {
        self.0
    }
}

/// Packing an image index with an offset that fits in 24 bits and unpacking
/// it again gives back both parts.
pub proof fn lemma_stream_source_roundtrip(image_index: u8, sector_offset: u32)
    requires
        sector_offset < 0x1000000,
    ensures
        (spec_pack_source(image_index, sector_offset) >> 24u32) as u8 == image_index,
        spec_pack_source(image_index, sector_offset) & 0xffffffu32 == sector_offset,
{
    assert((((image_index as u32) << 24u32) | sector_offset) >> 24u32 == image_index as u32)
        by (bit_vector)
        requires
            sector_offset < 0x1000000u32,
    ;
    assert((((image_index as u32) << 24u32) | sector_offset) & 0xffffffu32 == sector_offset)
        by (bit_vector)
        requires
            sector_offset < 0x1000000u32,
    ;
}

/// The game's queue of stream indices: a ring of `capacity` slots in which
/// the entries run from `head` up to (not including) `tail`, wrapping round.
#[derive(Debug)]
pub struct Queue {
    pub data: Vec<i32>,
    pub head: u32,
    pub tail: u32,
    pub capacity: u32,
}

/// The number of entries in a ring of `cap` slots from `head` to `tail`.
pub open spec fn ring_len(head: int, tail: int, cap: int) -> int {
    if head <= tail {
        tail - head
    } else {
        tail + cap - head
    }
}

/// The entries of a ring of `cap` slots `data` from `head` to `tail`.
pub open spec fn ring_contents(data: Seq<i32>, head: int, tail: int, cap: int) -> Seq<i32> {
    Seq::new(ring_len(head, tail, cap) as nat, |i: int| data[(head + i) % cap])
}

/// Positions in a ring wrap round once past its end.
proof fn lemma_wrap(x: int, cap: int)
    requires
        0 < cap,
        0 <= x < 2 * cap,
    ensures
        x < cap ==> x % cap == x,
        x >= cap ==> x % cap == x - cap,
{
    if x < cap {
        vstd::arithmetic::div_mod::lemma_small_mod(x as nat, cap as nat);
    } else {
        vstd::arithmetic::div_mod::lemma_small_mod((x - cap) as nat, cap as nat);
        vstd::arithmetic::div_mod::lemma_mod_add_multiples_vanish(x - cap, cap);
    }
}

impl Queue {
    /// The ring's shape is sound: it has `capacity` slots, and `head` and
    /// `tail` are among them.
    pub open spec fn wf(&self) -> bool {
        &&& self.capacity > 0
        &&& self.data@.len() == self.capacity
        &&& self.head < self.capacity
        &&& self.tail < self.capacity
    }

    /// The entries of the queue, first to last.
    pub open spec fn contents(&self) -> Seq<i32> {
        ring_contents(self.data@, self.head as int, self.tail as int, self.capacity as int)
    }

    /// Creates an empty queue with `capacity` slots.
    pub fn with_capacity(capacity: u32) -> (q: Queue)
        requires
            capacity > 0,
        ensures
            q.wf(),
            q.capacity == capacity,
            q.contents().len() == 0,
    {
        let mut data: Vec<i32> = Vec::new();
        let mut i: u32 = 0;
        while i < capacity
            invariant
                0 <= i <= capacity,
                data@.len() == i,
            decreases capacity - i,
        {
            data.push(0);
            i = i + 1;
        }
        Queue { data, head: 0, tail: 0, capacity }
    }

    /// Adds `value` at the end of the queue. A queue that already holds
    /// `capacity - 1` entries wraps round and becomes empty, as the game's
    /// queue does.
    pub fn add(&mut self, value: i32)
        requires
            old(self).wf(),
        ensures
            final(self).wf(),
            final(self).capacity == old(self).capacity,
            final(self).head == old(self).head,
            final(self).tail == (old(self).tail + 1) % (old(self).capacity as int),
            final(self).data@ == old(self).data@.update(old(self).tail as int, value),
    {
        let t = self.tail;
        self.data.set(t as usize, value);
        self.tail = ((t as u64 + 1) % (self.capacity as u64)) as u32;
    }

    /// Returns the first entry, or -1 if the queue is empty.
    pub fn first(&self) -> (v: i32)
        requires
            self.wf(),
        ensures
            v == if self.contents().len() == 0 {
                -1i32
            } else {
                self.contents()[0]
            },
    {
        if self.head == self.tail {
            -1
        } else {
            proof {
                lemma_wrap(self.head as int, self.capacity as int);
            }
            self.data[self.head as usize]
        }
    }

    /// Removes the first entry, if there is one.
    pub fn remove_first(&mut self)
        requires
            old(self).wf(),
        ensures
            final(self).wf(),
            final(self).capacity == old(self).capacity,
            final(self).tail == old(self).tail,
            final(self).data@ == old(self).data@,
            final(self).head == if old(self).head == old(self).tail {
                old(self).head as int
            } else {
                (old(self).head + 1) % (old(self).capacity as int)
            },
    {
        if self.head != self.tail {
            self.head = ((self.head as u64 + 1) % (self.capacity as u64)) as u32;
        }
    }
}


/// The queue of streams waiting to be serviced, by index. Each entry is
/// matched by a post of the game's stream semaphore, which the caller makes.
#[derive(Debug)]
pub struct GlobalStreamQueue {
    pub index_queue: Queue,
}

impl GlobalStreamQueue {
    /// Adds the given stream index to the queue (in the game's 32-bit
    /// form).
    pub fn push_index(&mut self, stream_index: usize)
        requires
            old(self).index_queue.wf(),
        ensures
            final(self).index_queue.wf(),
            final(self).index_queue.capacity == old(self).index_queue.capacity,
            final(self).index_queue.head == old(self).index_queue.head,
            final(self).index_queue.tail == (old(self).index_queue.tail + 1) % (old(
                self,
            ).index_queue.capacity as int),
            final(self).index_queue.data@ == old(self).index_queue.data@.update(
                old(self).index_queue.tail as int,
                stream_index as i32,
            ),
    {
        self.index_queue.add(stream_index as i32);
    }

    /// Takes the next stream index off the queue (-1 if it is empty), once
    /// the caller has waited on the game's stream semaphore.
    pub fn pop_index(&mut self) -> (index: i32)
        requires
            old(self).index_queue.wf(),
        ensures
            final(self).index_queue.wf(),
            index == if old(self).index_queue.contents().len() == 0 {
                -1i32
            } else {
                old(self).index_queue.contents()[0]
            },
            final(self).index_queue.contents() == if old(self).index_queue.contents().len() == 0 {
                old(self).index_queue.contents()
            } else {
                old(self).index_queue.contents().drop_first()
            },
    {
        let index = self.index_queue.first();
        proof {
            let q = self.index_queue;
            lemma_queue_fifo(q.data@, q.head as int, q.tail as int, q.capacity as int, 0);
        }
        self.index_queue.remove_first();
        index
    }
}

/// The request and status fields of one of the game's streams.
#[derive(Clone, Copy, PartialEq, Eq, Structural, Debug)]
pub struct StreamState {
    pub sector_offset: u32,
    pub sectors_to_read: u32,
    pub in_use: bool,
    pub processing: bool,
    pub status: u32,
}

impl StreamState {
    /// An idle stream with no request.
    pub fn new() -> (s: StreamState)
        ensures
            s == (StreamState {
                sector_offset: 0,
                sectors_to_read: 0,
                in_use: false,
                processing: false,
                status: 0,
            }),
    {
        StreamState {
            sector_offset: 0,
            sectors_to_read: 0,
            in_use: false,
            processing: false,
            status: 0,
        }
    }

    /// Returns the location in the image file of the requested resource.
    pub fn file_region(&self) -> (r: ImageRegion)
        ensures
            r.offset_sectors == self.sector_offset,
            r.size_sectors == self.sectors_to_read,
    {
        ImageRegion {
            offset_sectors: self.sector_offset as usize,
            size_sectors: self.sectors_to_read as usize,
        }
    }

    /// Returns `true` if the stream did not fail on its most recent read.
    pub fn is_ok(&self) -> (ok: bool)
        ensures
            ok == (self.status == 0),
    {
        self.status == 0
    }

    /// Returns `true` if the stream is processing a request or has data
    /// waiting to be read.
    pub fn is_busy(&self) -> (busy: bool)
        ensures
            busy == (self.sectors_to_read != 0 || self.processing),
    {
        self.sectors_to_read != 0 || self.processing
    }

    /// Sets the stream to the processing state.
    pub fn enter_processing_state(&mut self)
        ensures
            *final(self) == (StreamState { processing: true, ..*old(self) }),
    {
        self.processing = true;
    }

    /// Sets the stream back to the idle state and clears its request. Returns
    /// `true` if a reader is waiting for the stream (it is in use), in which
    /// case the caller posts the stream's semaphore.
    pub fn exit_processing_state(&mut self) -> (wake: bool)
        ensures
            *final(self) == (StreamState { sectors_to_read: 0, processing: false, ..*old(self) }),
            wake == old(self).in_use,
            !final(self).is_busy_spec(),
    {
        self.sectors_to_read = 0;
        self.processing = false;
        self.in_use
    }

    /// Whether the stream is busy (see `is_busy`).
    pub open spec fn is_busy_spec(&self) -> bool {
        self.sectors_to_read != 0 || self.processing
    }

    /// Clears the error code if there is one set.
    pub fn clear_error(&mut self)
        ensures
            *final(self) == (StreamState { status: 0, ..*old(self) }),
    {
        self.status = 0;
    }

    /// Sets the location of the next file read within the current image to
    /// `region` (each part kept in 32 bits, as the game's fields hold).
    pub fn set_region(&mut self, region: ImageRegion)
        ensures
            *final(self) == (StreamState {
                sector_offset: region.offset_sectors as u32,
                sectors_to_read: region.size_sectors as u32,
                ..*old(self)
            }),
    {
        self.sector_offset = region.offset_sectors as u32;
        self.sectors_to_read = region.size_sectors as u32;
    }
}

/// Returns the value the game keeps as the current stream request position
/// for the end of `region` in image `image_index`: the packed start of the
/// region plus its size.
pub fn global_position(image_index: usize, region: ImageRegion) -> (pos: u32)
    requires
        spec_pack_source(image_index as u8, region.offset_sectors as u32) + (
        region.size_sectors as u32) <= u32::MAX,
    ensures
        pos == spec_pack_source(image_index as u8, region.offset_sectors as u32) + (
        region.size_sectors as u32),
{
    let source = StreamSource::new(image_index as u8, region.offset_sectors as u32);
    source.0 + region.size_sectors as u32
}

/// The queue is first-in first-out: while it has room, adding puts the value
/// at the end of the entries, and removing takes away the first entry.
pub proof fn lemma_queue_fifo(data: Seq<i32>, head: int, tail: int, cap: int, value: i32)
    requires
        data.len() == cap,
        0 <= head < cap,
        0 <= tail < cap,
    ensures
        ring_len(head, tail, cap) + 1 < cap ==> ring_contents(
            data.update(tail, value),
            head,
            (tail + 1) % cap,
            cap,
        ) == ring_contents(data, head, tail, cap).push(value),
        ring_len(head, tail, cap) > 0 ==> ring_contents(data, (head + 1) % cap, tail, cap)
            == ring_contents(data, head, tail, cap).drop_first(),
{
    let n = ring_len(head, tail, cap);
    let old_c = ring_contents(data, head, tail, cap);
    lemma_wrap(tail + 1, cap);
    lemma_wrap(head + 1, cap);
    if n + 1 < cap {
        let t2 = (tail + 1) % cap;
        let c2 = ring_contents(data.update(tail, value), head, t2, cap);
        assert(ring_len(head, t2, cap) == n + 1);
        assert forall|i: int| 0 <= i < n + 1 implies c2[i] == old_c.push(value)[i] by {
            lemma_wrap(head + i, cap);
            if i < n {
                assert((head + i) % cap != tail);
            } else {
                assert((head + i) % cap == tail);
            }
        }
        assert(c2 =~= old_c.push(value));
    }
    if n > 0 {
        let h2 = (head + 1) % cap;
        let c3 = ring_contents(data, h2, tail, cap);
        assert(ring_len(h2, tail, cap) == n - 1);
        assert forall|i: int| 0 <= i < n - 1 implies c3[i] == old_c.drop_first()[i] by {
            lemma_wrap(h2 + i, cap);
            lemma_wrap(head + i + 1, cap);
        }
        assert(c3 =~= old_c.drop_first());
    }
}

} // verus!
