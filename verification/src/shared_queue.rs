//! The ring of frames that the guest and a worker of the host share. One
//! side fills the slots and counts what it has written, the other empties
//! them and counts what it has read.

use vstd::prelude::*;
use crate::consts::{UHYVE_NET_MTU, UHYVE_QUEUE_SIZE};
use crate::mem::{
    lemma_load_apart, lemma_store, lemma_word_round_trip, read_u16, read_u64, store_u16, store_u64,
    u16_at, u64_at, write_u16, write_u64,
};
use vstd::bytes::{
    lemma_auto_spec_u16_to_from_le_bytes, lemma_auto_spec_u64_to_from_le_bytes,
    spec_u16_to_le_bytes, spec_u64_to_le_bytes,
};

verus! {

/// Offset of the count of the frames that were read.
pub const QUEUE_READ: usize = 0;

/// Offset of the count of the frames that were written; it has a cache line
/// of its own.
pub const QUEUE_WRITTEN: usize = 64;

/// Offset of the first slot.
pub const QUEUE_SLOTS: usize = 128;

/// Offset of the data in a slot: the length of the frame comes first.
pub const SLOT_DATA: usize = 2;

/// Largest frame that a slot holds: the payload and its headers.
pub const SLOT_CAPACITY: usize = 1534;

/// Size of a slot in bytes.
pub const SLOT_SIZE: usize = 1536;

/// Size of a queue in bytes.
pub const SHARED_QUEUE_SIZE: usize = 12416;

/// The number of the frames that were taken out of the queue.
pub open spec fn read_count(queue: Seq<u8>) -> u64 {
    u64_at(queue, QUEUE_READ as int)
}

/// The number of the frames that were put into the queue.
pub open spec fn written_count(queue: Seq<u8>) -> u64 {
    u64_at(queue, QUEUE_WRITTEN as int)
}

/// Whether the counts of the queue agree with each other: nothing was read
/// that was not written, and no more is waiting than there are slots.
pub open spec fn is_consistent(queue: Seq<u8>) -> bool {
    &&& queue.len() >= SHARED_QUEUE_SIZE
    &&& 0 <= written_count(queue) - read_count(queue) <= UHYVE_QUEUE_SIZE
}

/// Whether every slot of the queue holds a frame that waits.
pub open spec fn is_full(queue: Seq<u8>) -> bool {
    written_count(queue) - read_count(queue) == UHYVE_QUEUE_SIZE
}

/// The offset of the slot of the frame with the number `count`.
pub open spec fn slot_of(count: u64) -> int {
    QUEUE_SLOTS + (count as int % UHYVE_QUEUE_SIZE as int) * SLOT_SIZE
}

/// The length of the frame in the slot at `slot`.
pub open spec fn frame_len(queue: Seq<u8>, slot: int) -> u16 {
    u16_at(queue, slot)
}

/// What is to be done for the guest's frames to send.
#[derive(Clone, Copy, Debug, PartialEq, Eq, Structural)]
pub enum Transmit {
    /// No frame waits.
    Idle,
    /// The frame of `len` bytes at the offset `data` is the next to send.
    Frame { data: usize, len: usize },
    /// The queue is not in a state that the host has left it in.
    Corrupt,
}

/// What the queue of the guest's frames asks of the host: the oldest frame
/// that waits, if there is one.
pub open spec fn transmit_of(queue: Seq<u8>) -> Transmit {
    let read = read_count(queue);
    let slot = slot_of(read);
    if !is_consistent(queue) {
        Transmit::Corrupt
    } else if written_count(queue) == read {
        Transmit::Idle
    } else if frame_len(queue, slot) > SLOT_CAPACITY {
        Transmit::Corrupt
    } else {
        Transmit::Frame { data: (slot + SLOT_DATA) as usize, len: frame_len(queue, slot) as usize }
    }
}

/// The offset of the data of the slot that the next frame for the guest
/// goes into, if the queue has room for it.
pub open spec fn receive_slot_of(queue: Seq<u8>) -> Option<usize> {
    if is_consistent(queue) && !is_full(queue) && written_count(queue) < u64::MAX {
        Some((slot_of(written_count(queue)) + SLOT_DATA) as usize)
    } else {
        None
    }
}

/// The sizes fit together: a slot holds a length and the largest frame, and
/// a queue holds its counts and its slots.
pub proof fn lemma_queue_layout()
    ensures
        SLOT_CAPACITY == UHYVE_NET_MTU + 34,
        SLOT_SIZE == SLOT_DATA + SLOT_CAPACITY,
        SHARED_QUEUE_SIZE == QUEUE_SLOTS + UHYVE_QUEUE_SIZE * SLOT_SIZE,
        SHARED_QUEUE_SIZE % 64 == 0,
{
}

/// A queue of frames in the memory that guest and host share.
pub struct SharedQueue {}

impl SharedQueue {
    /// Empties the queue: nothing written, nothing read.
    pub fn init(queue: &mut [u8])
        requires
            old(queue)@.len() >= SHARED_QUEUE_SIZE,
        ensures
            final(queue)@ == store_u64(
                store_u64(old(queue)@, QUEUE_READ as int, 0),
                QUEUE_WRITTEN as int,
                0,
            ),
            read_count(final(queue)@) == 0,
            written_count(final(queue)@) == 0,
            is_consistent(final(queue)@),
    {
        write_u64(queue, QUEUE_READ, 0);
        let ghost cleared = queue@;
        write_u64(queue, QUEUE_WRITTEN, 0);
        proof {
            lemma_auto_spec_u64_to_from_le_bytes();
            lemma_word_round_trip(old(queue)@, QUEUE_READ as int);
            lemma_word_round_trip(cleared, QUEUE_WRITTEN as int);
            lemma_load_apart(cleared, QUEUE_WRITTEN as int, spec_u64_to_le_bytes(0), 0, 8);
        }
    }

    /// The number of the frames that were taken out of the queue.
    pub fn read(queue: &[u8]) -> (r: u64)
        requires
            queue@.len() >= SHARED_QUEUE_SIZE,
        ensures
            r == read_count(queue@),
    {
        read_u64(queue, QUEUE_READ)
    }

    /// The number of the frames that were put into the queue.
    pub fn written(queue: &[u8]) -> (r: u64)
        requires
            queue@.len() >= SHARED_QUEUE_SIZE,
        ensures
            r == written_count(queue@),
    {
        read_u64(queue, QUEUE_WRITTEN)
    }

    /// The offset of the slot of the frame with the number `count`.
    fn slot(count: u64) -> (r: usize)
        ensures
            r == slot_of(count),
            r + SLOT_SIZE <= SHARED_QUEUE_SIZE,
    {
        QUEUE_SLOTS + (count % 8) as usize * SLOT_SIZE
    }

    /// Looks for the next of the guest's frames to send.
    pub fn next_to_send(queue: &[u8]) -> (r: Transmit)
        ensures
            r == transmit_of(queue@),
            r matches Transmit::Frame { data, len } ==> data + len <= queue@.len(),
    {
        if queue.len() < SHARED_QUEUE_SIZE {
            return Transmit::Corrupt;
        }
        let written = SharedQueue::written(queue);
        let read = SharedQueue::read(queue);
        if written < read || written - read > UHYVE_QUEUE_SIZE as u64 {
            return Transmit::Corrupt;
        }
        if written == read {
            return Transmit::Idle;
        }
        let slot = SharedQueue::slot(read);
        let len = read_u16(queue, slot) as usize;
        if len > SLOT_CAPACITY {
            return Transmit::Corrupt;
        }
        Transmit::Frame { data: slot + SLOT_DATA, len }
    }

    /// Counts the frame that `next_to_send` has found as read, once it is
    /// sent. Returns whether there was such a frame.
    pub fn complete_send(queue: &mut [u8]) -> (r: bool)
        ensures
            r == (transmit_of(old(queue)@) is Frame),
            r ==> final(queue)@ == store_u64(
                old(queue)@,
                QUEUE_READ as int,
                (read_count(old(queue)@) + 1) as u64,
            ),
            r ==> read_count(final(queue)@) == read_count(old(queue)@) + 1,
            r ==> written_count(final(queue)@) == written_count(old(queue)@),
            r ==> is_consistent(final(queue)@),
            !r ==> final(queue)@ == old(queue)@,
            is_consistent(old(queue)@) ==> is_consistent(final(queue)@),
    {
        match SharedQueue::next_to_send(queue) {
            Transmit::Frame { data, len } => {
                let read = SharedQueue::read(queue);
                write_u64(queue, QUEUE_READ, read + 1);
                proof {
                    lemma_auto_spec_u64_to_from_le_bytes();
                    lemma_word_round_trip(old(queue)@, QUEUE_READ as int);
                    lemma_load_apart(
                        old(queue)@,
                        QUEUE_READ as int,
                        spec_u64_to_le_bytes((read + 1) as u64),
                        QUEUE_WRITTEN as int,
                        8,
                    );
                }
                true
            },
            _ => false,
        }
    }

    /// Looks for room for the next frame for the guest. Where every slot is
    /// taken there is none: the worker yields and tries again.
    pub fn receive_slot(queue: &[u8]) -> (r: Option<usize>)
        ensures
            r == receive_slot_of(queue@),
            r matches Some(data) ==> data + SLOT_CAPACITY <= queue@.len(),
            is_full(queue@) ==> r is None,
    {
        if queue.len() < SHARED_QUEUE_SIZE {
            return None;
        }
        let written = SharedQueue::written(queue);
        let read = SharedQueue::read(queue);
        if written < read || written - read >= UHYVE_QUEUE_SIZE as u64 || written == u64::MAX {
            return None;
        }
        Some(SharedQueue::slot(written) + SLOT_DATA)
    }

    /// Notes the length of the frame that was received into the slot that
    /// `receive_slot` has found, and counts the frame as written. Returns
    /// whether there was such a slot; the guest is then due an interrupt.
    pub fn complete_receive(queue: &mut [u8], len: usize) -> (r: bool)
        requires
            len <= SLOT_CAPACITY,
        ensures
            r == (receive_slot_of(old(queue)@) is Some),
            r ==> final(queue)@ == store_u64(
                store_u16(old(queue)@, slot_of(written_count(old(queue)@)), len as u16),
                QUEUE_WRITTEN as int,
                (written_count(old(queue)@) + 1) as u64,
            ),
            r ==> frame_len(final(queue)@, slot_of(written_count(old(queue)@))) == len,
            r ==> written_count(final(queue)@) == written_count(old(queue)@) + 1,
            r ==> read_count(final(queue)@) == read_count(old(queue)@),
            r ==> is_consistent(final(queue)@),
            !r ==> final(queue)@ == old(queue)@,
            is_consistent(old(queue)@) ==> is_consistent(final(queue)@),
            is_full(old(queue)@) ==> !r,
    {
        match SharedQueue::receive_slot(queue) {
            Some(data) => {
                let written = SharedQueue::written(queue);
                let slot = SharedQueue::slot(written);
                write_u16(queue, slot, len as u16);
                let ghost noted = queue@;
                write_u64(queue, QUEUE_WRITTEN, written + 1);
                proof {
                    lemma_auto_spec_u64_to_from_le_bytes();
                    lemma_auto_spec_u16_to_from_le_bytes();
                    lemma_store(old(queue)@, slot as int, spec_u16_to_le_bytes(len as u16));
                    lemma_word_round_trip(old(queue)@, slot as int);
                    lemma_word_round_trip(noted, QUEUE_WRITTEN as int);
                    lemma_load_apart(
                        old(queue)@,
                        slot as int,
                        spec_u16_to_le_bytes(len as u16),
                        QUEUE_WRITTEN as int,
                        8,
                    );
                    lemma_load_apart(
                        old(queue)@,
                        slot as int,
                        spec_u16_to_le_bytes(len as u16),
                        QUEUE_READ as int,
                        8,
                    );
                    lemma_load_apart(
                        noted,
                        QUEUE_WRITTEN as int,
                        spec_u64_to_le_bytes((written + 1) as u64),
                        QUEUE_READ as int,
                        8,
                    );
                    lemma_load_apart(
                        noted,
                        QUEUE_WRITTEN as int,
                        spec_u64_to_le_bytes((written + 1) as u64),
                        slot as int,
                        2,
                    );
                }
                true
            },
            None => false,
        }
    }
}

} // verus!
