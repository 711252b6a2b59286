use virtio_fuzz::net::backend::{
    checksum_state, fit_packet, new_queues, tx_offload_support, BackendOp, QueueShared, RxChecksumState,
    RxDelivery, RxId, RxInject, TxId, TxPollError, TxSegment,
};

type Queue = QueueShared<&'static str>;

fn queue() -> Queue {
    QueueShared::new()
}

fn inject(len: u32, segmented: bool) -> BackendOp {
    BackendOp::Inject(RxInject {
        len,
        ip_checksum: RxChecksumState::Good,
        l4_checksum: RxChecksumState::Bad,
        segmented,
    })
}

fn head(id: u32, segment_count: usize) -> TxSegment {
    TxSegment::Head { id: TxId(id), segment_count }
}

/// Polls for received packets, as the device does, with `room` slots and
/// buffers whose capacity is given by `capacity`.
fn rx_poll(queue: &mut Queue, room: usize, capacity: fn(RxId) -> u32) -> Vec<RxDelivery> {
    let capacities = queue.rx_buffers(room).into_iter().map(capacity).collect();
    queue.rx_poll(&capacities)
}

#[test]
fn checksum_states_follow_the_byte() {
    assert_eq!(checksum_state(0), RxChecksumState::Unknown);
    assert_eq!(checksum_state(1), RxChecksumState::Good);
    assert_eq!(checksum_state(2), RxChecksumState::Bad);
    assert_eq!(checksum_state(3), RxChecksumState::ValidatedButWrong);
    assert_eq!(checksum_state(4), RxChecksumState::Unknown);
    assert_eq!(checksum_state(255), RxChecksumState::ValidatedButWrong);
}

#[test]
fn everything_is_offloaded() {
    let support = tx_offload_support();
    assert!(support.ipv4_header && support.tcp && support.udp && support.tso && support.uso);
}

#[test]
fn queues_are_handed_out_fresh() {
    let queues: Vec<Queue> = new_queues(3);
    assert_eq!(queues.len(), 3);
    for queue in &queues {
        assert!(!queue.ready());
        assert!(queue.tx_sync);
        assert_eq!(queue.tx_max_packets, usize::MAX);
    }
    let none: Vec<Queue> = new_queues(0);
    assert!(none.is_empty());
}

// ---- Readiness ----

#[test]
fn idle_queue_keeps_the_waker() {
    let mut queue = queue();
    assert!(!queue.poll_ready("task"));
    assert_eq!(queue.request(BackendOp::CompleteTx { count: 1 }), Some("task"));
    assert_eq!(queue.request(BackendOp::CompleteTx { count: 1 }), None);
    assert_eq!(queue.tx_poll(8), Ok(vec![]));
    assert!(rx_poll(&mut queue, 8, |_| 64).is_empty());
}

#[test]
fn packet_without_a_buffer_is_not_ready() {
    let mut queue = queue();
    queue.request(inject(5, false));
    assert!(!queue.ready());
    assert!(rx_poll(&mut queue, 1, |_| 64).is_empty());
    assert_eq!(queue.rx_inject.len(), 1);
    queue.rx_avail(&vec![RxId(7)]);
    assert!(queue.poll_ready("task"));
    assert_eq!(queue.wake(), None);
    assert_eq!(queue.rx_buffers(1), vec![RxId(7)]);
    assert_eq!(rx_poll(&mut queue, 1, |_| 64)[0].id, RxId(7));
    assert!(!queue.ready());
}

#[test]
fn buffer_without_a_packet_is_not_ready() {
    let mut queue = queue();
    queue.rx_avail(&vec![RxId(7)]);
    assert!(!queue.ready());
    assert!(rx_poll(&mut queue, 1, |_| 64).is_empty());
    assert_eq!(queue.rx_pending, vec![RxId(7)]);
}

#[test]
fn poll_without_room_takes_nothing() {
    let mut queue = queue();
    queue.rx_avail(&vec![RxId(7)]);
    queue.request(inject(5, false));
    assert!(queue.rx_buffers(0).is_empty());
    assert!(rx_poll(&mut queue, 0, |_| 64).is_empty());
    assert!(queue.ready());
}

#[test]
fn packet_fits_its_buffer() {
    let request = RxInject {
        len: 9,
        ip_checksum: RxChecksumState::Unknown,
        l4_checksum: RxChecksumState::Good,
        segmented: true,
    };
    let packet = fit_packet(request, RxId(3), 5);
    assert_eq!((packet.id, packet.len, packet.split), (RxId(3), 5, Some(2)));
    let packet = fit_packet(request, RxId(3), 1);
    assert_eq!((packet.len, packet.split), (1, None));
}

#[test]
fn armed_failure_is_ready() {
    let mut queue = queue();
    queue.request(BackendOp::FailTxPoll { fatal: true });
    assert!(queue.ready());
    assert_eq!(queue.tx_poll(0), Err(TxPollError::Fatal));
    assert!(!queue.ready());
    assert_eq!(queue.tx_poll(0), Ok(vec![]));
}

#[test]
fn failure_may_ask_for_a_restart() {
    let mut queue = queue();
    queue.tx_done.push_back(TxId(4));
    queue.request(BackendOp::FailTxPoll { fatal: false });
    assert_eq!(queue.tx_poll(1), Err(TxPollError::TryRestart));
    assert_eq!(queue.tx_poll(1), Ok(vec![TxId(4)]));
}

// ---- Receive ----

#[test]
fn packets_are_held_to_their_buffers() {
    let mut queue = queue();
    queue.rx_avail(&vec![RxId(1), RxId(2), RxId(3)]);
    queue.request(inject(0, true));
    queue.request(inject(7, true));
    queue.request(inject(1000, false));
    let packets = rx_poll(&mut queue, 8, |_| 64);
    assert_eq!(
        packets,
        vec![
            RxDelivery {
                id: RxId(1),
                len: 1,
                fill: 0xa5,
                ip_checksum: RxChecksumState::Good,
                l4_checksum: RxChecksumState::Bad,
                split: None,
            },
            RxDelivery {
                id: RxId(2),
                len: 7,
                fill: 0xa5,
                ip_checksum: RxChecksumState::Good,
                l4_checksum: RxChecksumState::Bad,
                split: Some(3),
            },
            RxDelivery {
                id: RxId(3),
                len: 64,
                fill: 0xa5,
                ip_checksum: RxChecksumState::Good,
                l4_checksum: RxChecksumState::Bad,
                split: None,
            },
        ]
    );
    assert!(!queue.ready());
}

#[test]
fn packets_go_in_order_as_room_allows() {
    let mut queue = queue();
    queue.rx_avail(&vec![RxId(5), RxId(6)]);
    queue.rx_avail(&vec![RxId(4)]);
    for len in 10..14 {
        queue.request(inject(len, false));
    }
    let packets = rx_poll(&mut queue, 2, |_| 64);
    assert_eq!(packets.iter().map(|p| (p.id, p.len)).collect::<Vec<_>>(), vec![(RxId(5), 10), (RxId(6), 11)]);
    let packets = rx_poll(&mut queue, 2, |_| 64);
    assert_eq!(packets.iter().map(|p| (p.id, p.len)).collect::<Vec<_>>(), vec![(RxId(4), 12)]);
    assert_eq!(queue.rx_inject.len(), 1);
}

#[test]
fn buffer_without_room_stays_posted() {
    let mut queue = queue();
    queue.rx_avail(&vec![RxId(1), RxId(2), RxId(3)]);
    for _ in 0..3 {
        queue.request(inject(10, false));
    }
    let packets = rx_poll(&mut queue, 8, |id| if id == RxId(2) { 0 } else { 64 });
    assert_eq!(packets.len(), 1);
    assert_eq!(packets[0].id, RxId(1));
    assert_eq!(queue.rx_pending, vec![RxId(2), RxId(3)]);
    assert!(queue.rx_inject.is_empty());
}

#[test]
fn pending_packets_are_bounded() {
    let mut queue = queue();
    for _ in 0..70 {
        queue.request(inject(1, false));
    }
    assert_eq!(queue.rx_inject.len(), 64);
}

// ---- Transmit ----

#[test]
fn synchronous_transmits_are_not_recorded() {
    let mut queue = queue();
    let sent = queue.tx_avail(&vec![head(1, 2), TxSegment::Tail, head(2, 1)]);
    assert_eq!(sent, (true, 3));
    queue.request(BackendOp::CompleteTx { count: 8 });
    assert_eq!(queue.tx_poll(8), Ok(vec![]));
}

#[test]
fn only_whole_packets_are_taken() {
    let mut queue = queue();
    assert_eq!(queue.tx_avail(&vec![]), (true, 0));
    assert_eq!(queue.tx_avail(&vec![TxSegment::Tail, head(1, 1)]), (true, 0));
    assert_eq!(queue.tx_avail(&vec![head(1, 0), head(2, 1)]), (true, 0));
    assert_eq!(queue.tx_avail(&vec![head(1, 1), head(2, 3), TxSegment::Tail]), (true, 1));
    assert_eq!(queue.tx_avail(&vec![head(1, usize::MAX)]), (true, 0));
}

#[test]
fn packets_per_call_are_limited() {
    let mut queue = queue();
    queue.request(BackendOp::SetTxMode { sync: false, max_packets: 2 });
    let segments = vec![head(1, 1), head(2, 2), TxSegment::Tail, head(3, 1)];
    assert_eq!(queue.tx_avail(&segments), (false, 3));
    assert_eq!(queue.tx_inflight, vec![TxId(1), TxId(2)]);
}

#[test]
fn transmits_complete_once_and_in_order() {
    let mut queue = queue();
    queue.request(BackendOp::SetTxMode { sync: false, max_packets: 8 });
    queue.tx_avail(&vec![head(1, 1), head(2, 1), head(3, 1)]);
    assert_eq!(queue.tx_poll(8), Ok(vec![]));
    queue.request(BackendOp::CompleteTx { count: 2 });
    queue.tx_avail(&vec![head(4, 1)]);
    assert_eq!(queue.tx_poll(1), Ok(vec![TxId(1)]));
    queue.request(BackendOp::FailTxPoll { fatal: false });
    assert!(queue.tx_poll(8).is_err());
    queue.request(BackendOp::CompleteTx { count: 8 });
    assert_eq!(queue.tx_poll(8), Ok(vec![TxId(2), TxId(3), TxId(4)]));
    assert_eq!(queue.tx_poll(8), Ok(vec![]));
}

#[test]
fn releases_are_bounded() {
    let mut queue = queue();
    for id in 0..20 {
        queue.tx_inflight.push_back(TxId(id));
    }
    queue.request(BackendOp::CompleteTx { count: 9 });
    assert_eq!(queue.tx_done.len(), 0);
    queue.request(BackendOp::CompleteTx { count: 17 });
    assert_eq!(queue.tx_done.len(), 8);
    queue.request(BackendOp::CompleteTx { count: 255 });
    assert_eq!(queue.tx_done.len(), 11);
    assert_eq!(queue.tx_inflight.len(), 9);
}
