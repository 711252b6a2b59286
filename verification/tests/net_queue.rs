use virtio_fuzz::net::data_alloc::DataAlloc;
use virtio_fuzz::net::guest_queue::GuestQueue;
use virtio_fuzz::net::layout::{DATA_BASE, MAX_TOTAL_BYTES, TOTAL_MEM_SIZE};

fn queue() -> GuestQueue {
    GuestQueue::new(1, 2, 3)
}

// ---- Data buffers ----

#[test]
fn buffers_follow_each_other() {
    let mut data = DataAlloc::new();
    assert_eq!(data.alloc_bytes(100), Some(DATA_BASE));
    assert_eq!(data.alloc_bytes(0), Some(DATA_BASE + 100));
    assert_eq!(data.alloc_bytes(28), Some(DATA_BASE + 100));
    assert_eq!(data.next, DATA_BASE + 128);
    assert_eq!(data.budget, MAX_TOTAL_BYTES - 128);
}

#[test]
fn arena_wraps() {
    let mut data = DataAlloc::new();
    assert_eq!(data.alloc_bytes(0x1ffff), Some(DATA_BASE));
    assert_eq!(data.alloc_bytes(1), Some(TOTAL_MEM_SIZE - 1));
    assert_eq!(data.alloc_bytes(1), Some(DATA_BASE));
}

#[test]
fn request_beyond_the_budget_changes_nothing() {
    let mut data = DataAlloc { next: DATA_BASE + 8, budget: 10 };
    assert_eq!(data.alloc_bytes(11), None);
    assert_eq!(data, DataAlloc { next: DATA_BASE + 8, budget: 10 });
    assert_eq!(data.alloc_bytes(10), Some(DATA_BASE + 8));
    assert_eq!(data.alloc_bytes(0), Some(DATA_BASE + 18));
    assert_eq!(data.alloc_bytes(1), None);
}

#[test]
fn handed_out_bytes_add_up_to_the_budget() {
    let mut data = DataAlloc::new();
    let mut granted = 0;
    while let Some(gpa) = data.alloc_bytes(500) {
        assert!(DATA_BASE <= gpa && gpa + 500 <= TOTAL_MEM_SIZE);
        granted += 1;
    }
    assert_eq!(granted, 2097);
    assert_eq!(data.budget, MAX_TOTAL_BYTES - 2097 * 500);
}

#[test]
fn any_series_is_paid_by_the_budget() {
    let mut data = DataAlloc { next: DATA_BASE, budget: 1000 };
    let mut granted: u64 = 0;
    for len in [400, 0, 700, 599, 2, 1, 1, 600] {
        if data.alloc_bytes(len).is_some() {
            granted += len as u64;
        }
    }
    assert_eq!(granted, 400 + 599 + 1);
    assert_eq!(data.budget, 0);
}

// ---- Descriptor slots ----

#[test]
fn fresh_queue_is_idle() {
    let queue = queue();
    assert_eq!((queue.desc_addr, queue.avail_addr, queue.used_addr), (1, 2, 3));
    assert_eq!((queue.avail_idx, queue.used_idx), (0, 0));
    assert_eq!(queue.busy, [false; 16]);
    assert_eq!(queue.chain_len, [0; 16]);
}

#[test]
fn slots_come_from_the_lowest_gap() {
    let mut queue = queue();
    assert_eq!(queue.alloc_slots(2), Some(0));
    assert_eq!(queue.alloc_slots(3), Some(2));
    assert_eq!(queue.alloc_slots(1), Some(5));
    queue.free(2);
    assert_eq!(queue.alloc_slots(4), Some(6));
    assert_eq!(queue.alloc_slots(3), Some(2));
    assert_eq!(queue.chain_len[2], 3);
}

#[test]
fn impossible_chains_get_no_slots() {
    let mut queue = queue();
    assert_eq!(queue.alloc_slots(0), None);
    assert_eq!(queue.alloc_slots(17), None);
    assert_eq!(queue.alloc_slots(usize::MAX), None);
    assert_eq!(queue.busy, [false; 16]);
    assert_eq!(queue.alloc_slots(16), Some(0));
    assert_eq!(queue.alloc_slots(1), None);
}

#[test]
fn scattered_slots_do_not_make_a_chain() {
    let mut queue = queue();
    for _ in 0..16 {
        queue.alloc_slots(1);
    }
    queue.free(3);
    queue.free(5);
    assert_eq!(queue.alloc_slots(2), None);
    queue.free(4);
    assert_eq!(queue.alloc_slots(3), Some(3));
}

#[test]
fn release_undoes_a_reservation() {
    let mut queue = queue();
    queue.alloc_slots(2);
    let (busy, chain_len) = (queue.busy, queue.chain_len);
    let head = queue.alloc_slots(5).expect("room");
    queue.free(head);
    assert_eq!((queue.busy, queue.chain_len), (busy, chain_len));
}

#[test]
fn second_release_changes_nothing() {
    let mut queue = queue();
    queue.alloc_slots(2);
    queue.alloc_slots(2);
    queue.free(0);
    let (busy, chain_len) = (queue.busy, queue.chain_len);
    queue.free(0);
    assert_eq!((queue.busy, queue.chain_len), (busy, chain_len));
    assert!(queue.busy[2] && queue.busy[3]);
}

#[test]
fn slot_that_heads_no_chain_releases_nothing() {
    let mut queue = queue();
    queue.alloc_slots(4);
    queue.free(1);
    queue.free(15);
    queue.free(16);
    queue.free(u16::MAX);
    assert_eq!(queue.busy.iter().filter(|b| **b).count(), 4);
}

#[test]
fn drain_releases_every_reported_chain() {
    let mut queue = queue();
    queue.alloc_slots(2);
    queue.alloc_slots(2);
    queue.alloc_slots(2);
    queue.drain_used(&vec![4, 0, 4, 99]);
    let mut expected = [false; 16];
    expected[2] = true;
    expected[3] = true;
    assert_eq!(queue.busy, expected);
}

#[test]
fn releasing_every_head_in_any_order_empties_the_table() {
    for order in [[0, 1, 2, 3], [3, 2, 1, 0], [2, 0, 3, 1]] {
        let mut queue = queue();
        let heads: Vec<u16> =
            [3, 1, 5, 2].into_iter().map(|n| queue.alloc_slots(n).expect("room")).collect();
        for i in order {
            queue.free(heads[i]);
        }
        assert_eq!(queue.busy, [false; 16]);
        assert_eq!(queue.chain_len, [0; 16]);
    }
}

#[test]
fn chains_in_flight_never_outnumber_the_ring() {
    let mut queue = queue();
    let mut heads = Vec::new();
    for _ in 0..40 {
        if let Some(head) = queue.alloc_slots(1) {
            assert!(!heads.contains(&head));
            heads.push(head);
        }
    }
    assert_eq!(heads.len(), 16);
    assert_eq!(queue.chain_len.iter().filter(|len| **len > 0).count(), 16);
    queue.drain_used(&vec![3, 9, 3, 200]);
    assert_eq!(queue.chain_len.iter().filter(|len| **len > 0).count(), 14);
}

#[test]
fn reset_forgets_everything_but_the_addresses() {
    let mut queue = queue();
    queue.alloc_slots(7);
    queue.avail_idx = 9;
    queue.used_idx = 8;
    queue.reset();
    assert_eq!((queue.desc_addr, queue.avail_addr, queue.used_addr), (1, 2, 3));
    assert_eq!((queue.avail_idx, queue.used_idx), (0, 0));
    assert_eq!(queue.busy, [false; 16]);
    assert_eq!(queue.chain_len, [0; 16]);
}
