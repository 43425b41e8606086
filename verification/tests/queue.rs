use uhyve::consts::{UHYVE_NET_MTU, UHYVE_QUEUE_SIZE};
use uhyve::shared_queue::{
    SharedQueue, Transmit, QUEUE_READ, QUEUE_SLOTS, QUEUE_WRITTEN, SHARED_QUEUE_SIZE,
    SLOT_CAPACITY, SLOT_DATA, SLOT_SIZE,
};

fn set_counts(queue: &mut [u8], read: u64, written: u64) {
    queue[QUEUE_READ..QUEUE_READ + 8].copy_from_slice(&read.to_le_bytes());
    queue[QUEUE_WRITTEN..QUEUE_WRITTEN + 8].copy_from_slice(&written.to_le_bytes());
}

fn set_frame(queue: &mut [u8], slot: usize, frame: &[u8]) {
    let at = QUEUE_SLOTS + slot * SLOT_SIZE;
    queue[at..at + 2].copy_from_slice(&(frame.len() as u16).to_le_bytes());
    queue[at + 2..at + 2 + frame.len()].copy_from_slice(frame);
}

fn distance(queue: &[u8]) -> u64 {
    SharedQueue::written(queue) - SharedQueue::read(queue)
}

#[test]
fn layout_of_a_queue() {
    assert_eq!(UHYVE_QUEUE_SIZE, 8);
    assert_eq!(SLOT_CAPACITY, UHYVE_NET_MTU + 34);
    assert_eq!(SLOT_SIZE, SLOT_DATA + SLOT_CAPACITY);
    assert_eq!(SHARED_QUEUE_SIZE, QUEUE_SLOTS + UHYVE_QUEUE_SIZE * SLOT_SIZE);
    assert_eq!(SHARED_QUEUE_SIZE, 12416);
    assert_eq!((SHARED_QUEUE_SIZE + 63) / 64 * 64, 12416);
}

#[test]
fn fresh_queue_is_empty() {
    let mut queue = vec![0xffu8; SHARED_QUEUE_SIZE];
    SharedQueue::init(&mut queue);
    assert_eq!(SharedQueue::read(&queue), 0);
    assert_eq!(SharedQueue::written(&queue), 0);
    assert_eq!(SharedQueue::next_to_send(&queue), Transmit::Idle);
    assert_eq!(SharedQueue::receive_slot(&queue), Some(QUEUE_SLOTS + SLOT_DATA));
    assert!(queue[8..64].iter().all(|byte| *byte == 0xff));
    assert!(queue[72..].iter().all(|byte| *byte == 0xff));
}

#[test]
fn ping_of_the_guest_is_sent_as_it_is() {
    let mut queue = vec![0u8; SHARED_QUEUE_SIZE];
    SharedQueue::init(&mut queue);
    let ping: Vec<u8> = (0..98u8).collect();
    set_frame(&mut queue, 0, &ping);
    set_counts(&mut queue, 0, 1);
    let next = SharedQueue::next_to_send(&queue);
    assert_eq!(next, Transmit::Frame { data: 130, len: 98 });
    if let Transmit::Frame { data, len } = next {
        assert_eq!(&queue[data..data + len], &ping[..]);
    }
    assert!(SharedQueue::complete_send(&mut queue));
    assert_eq!(SharedQueue::read(&queue), 1);
    assert_eq!(SharedQueue::written(&queue), 1);
    assert_eq!(SharedQueue::next_to_send(&queue), Transmit::Idle);
    assert!(!SharedQueue::complete_send(&mut queue));
    assert_eq!(SharedQueue::read(&queue), 1);
}

#[test]
fn incoming_frame_is_put_into_the_first_slot() {
    let mut queue = vec![0u8; SHARED_QUEUE_SIZE];
    SharedQueue::init(&mut queue);
    let data = SharedQueue::receive_slot(&queue).unwrap();
    assert_eq!(data, 130);
    let frame = [0x5au8; 64];
    queue[data..data + 64].copy_from_slice(&frame);
    assert!(SharedQueue::complete_receive(&mut queue, 64));
    assert_eq!(SharedQueue::written(&queue), 1);
    assert_eq!(SharedQueue::read(&queue), 0);
    assert_eq!(&queue[128..130], &[64, 0]);
    assert_eq!(&queue[130..194], &frame[..]);
    assert_eq!(SharedQueue::receive_slot(&queue), Some(QUEUE_SLOTS + SLOT_SIZE + SLOT_DATA));
}

#[test]
fn full_queue_makes_the_reader_yield() {
    let mut queue = vec![0u8; SHARED_QUEUE_SIZE];
    set_counts(&mut queue, 3, 11);
    for slot in 0..8 {
        set_frame(&mut queue, slot, &[slot as u8; 10]);
    }
    let before = queue.clone();
    assert_eq!(SharedQueue::receive_slot(&queue), None);
    assert!(!SharedQueue::complete_receive(&mut queue, 64));
    assert!(queue == before);
    assert_eq!(SharedQueue::next_to_send(&queue), Transmit::Frame { data: 128 + 3 * 1536 + 2, len: 10 });
}

#[test]
fn counts_stay_within_the_slots() {
    let mut queue = vec![0u8; SHARED_QUEUE_SIZE];
    SharedQueue::init(&mut queue);
    let mut received = 0;
    let mut sent = 0;
    for round in 0..100usize {
        if round % 3 != 2 {
            if let Some(data) = SharedQueue::receive_slot(&queue) {
                assert_eq!(data, 128 + (received % 8) * 1536 + 2);
                queue[data] = received as u8;
                assert!(SharedQueue::complete_receive(&mut queue, 1 + received % 7));
                received += 1;
            } else {
                assert_eq!(distance(&queue), 8);
                assert!(!SharedQueue::complete_receive(&mut queue, 1));
            }
        }
        if round % 5 == 4 {
            match SharedQueue::next_to_send(&queue) {
                Transmit::Frame { data, len } => {
                    assert_eq!(data, 128 + (sent % 8) * 1536 + 2);
                    assert_eq!(len, 1 + sent % 7);
                    assert_eq!(queue[data], sent as u8);
                    assert!(SharedQueue::complete_send(&mut queue));
                    sent += 1;
                }
                other => panic!("{:?}", other),
            }
        }
        assert!(distance(&queue) <= 8);
        assert_eq!(SharedQueue::written(&queue), received as u64);
        assert_eq!(SharedQueue::read(&queue), sent as u64);
    }
    assert_eq!(sent, 20);
    assert_eq!(received, 27);
}

#[test]
fn writer_drains_the_queue() {
    let mut queue = vec![0u8; SHARED_QUEUE_SIZE];
    set_counts(&mut queue, 6, 9);
    set_frame(&mut queue, 6, b"six");
    set_frame(&mut queue, 7, b"seven");
    set_frame(&mut queue, 0, b"eight");
    let mut frames = Vec::new();
    while let Transmit::Frame { data, len } = SharedQueue::next_to_send(&queue) {
        frames.push(queue[data..data + len].to_vec());
        assert!(SharedQueue::complete_send(&mut queue));
    }
    assert_eq!(frames, vec![b"six".to_vec(), b"seven".to_vec(), b"eight".to_vec()]);
    assert_eq!(SharedQueue::read(&queue), 9);
    assert_eq!(SharedQueue::next_to_send(&queue), Transmit::Idle);
}

#[test]
fn queue_that_the_guest_has_spoilt_is_left_alone() {
    let mut queue = vec![0u8; SHARED_QUEUE_SIZE];
    set_counts(&mut queue, 5, 4);
    let before = queue.clone();
    assert_eq!(SharedQueue::next_to_send(&queue), Transmit::Corrupt);
    assert_eq!(SharedQueue::receive_slot(&queue), None);
    assert!(!SharedQueue::complete_send(&mut queue));
    assert!(!SharedQueue::complete_receive(&mut queue, 10));
    assert!(queue == before);
    set_counts(&mut queue, 0, 9);
    assert_eq!(SharedQueue::next_to_send(&queue), Transmit::Corrupt);
    assert_eq!(SharedQueue::receive_slot(&queue), None);
    set_counts(&mut queue, 0, 1);
    queue[128..130].copy_from_slice(&1535u16.to_le_bytes());
    assert_eq!(SharedQueue::next_to_send(&queue), Transmit::Corrupt);
    queue[128..130].copy_from_slice(&1534u16.to_le_bytes());
    assert_eq!(SharedQueue::next_to_send(&queue), Transmit::Frame { data: 130, len: 1534 });
    assert_eq!(SharedQueue::next_to_send(&queue[..SHARED_QUEUE_SIZE - 1]), Transmit::Corrupt);
    assert_eq!(SharedQueue::receive_slot(&queue[..SHARED_QUEUE_SIZE - 1]), None);
    set_counts(&mut queue, u64::MAX - 2, u64::MAX);
    assert_eq!(SharedQueue::receive_slot(&queue), None);
}

#[test]
fn largest_frame_fits_into_a_slot() {
    let mut queue = vec![0u8; SHARED_QUEUE_SIZE];
    set_counts(&mut queue, 7, 7);
    let data = SharedQueue::receive_slot(&queue).unwrap();
    assert_eq!(data + SLOT_CAPACITY, SHARED_QUEUE_SIZE);
    assert!(SharedQueue::complete_receive(&mut queue, SLOT_CAPACITY));
    assert_eq!(SharedQueue::next_to_send(&queue), Transmit::Frame { data, len: 1534 });
    assert_eq!(SharedQueue::written(&queue), 8);
}
