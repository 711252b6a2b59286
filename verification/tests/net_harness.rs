use arbitrary::Unstructured;
use virtio_fuzz::net::action::{Action, Op};
use virtio_fuzz::net::backend::{BackendOp, QueueShared};
use virtio_fuzz::net::data_alloc::DataAlloc;
use virtio_fuzz::net::harness::{Attach, Harness};
use virtio_fuzz::net::layout::{MAX_ACTIONS, MAX_TOTAL_BYTES, MAX_YIELDS, TOTAL_MEM_SIZE};

const OFFERED: u64 = 0xff | (1 << 34);

fn books() -> Harness {
    Harness::new(OFFERED)
}

/// Books of a run whose queues run, with the backend handle held if asked for.
fn started(attached: bool) -> Harness {
    let mut books = books();
    books.start(0xff);
    if attached {
        books.attach(true);
    }
    books
}

fn text(ops: &Vec<Op>) -> Vec<String> {
    ops.iter().map(|op| format!("{:?}", op)).collect()
}

fn start_text(features: u64) -> Vec<String> {
    vec![
        "InitRings".to_string(),
        format!("StartQueue {{ index: 0, features: {} }}", features),
        format!("StartQueue {{ index: 1, features: {} }}", features),
        "Attach".to_string(),
    ]
}

fn stop_text() -> Vec<String> {
    vec![
        "StopQueue { index: 1 }".to_string(),
        "StopQueue { index: 0 }".to_string(),
        "Detach".to_string(),
    ]
}

/// The descriptors that ops write: slot, address, length, flags and next slot.
fn descriptors(ops: &Vec<Op>) -> Vec<(u16, u64, u32, bool, bool, u16)> {
    let mut found = Vec::new();
    for op in ops {
        if let Op::WriteDescriptor { descriptor: d, .. } = op {
            assert!(!d.flags.indirect);
            found.push((d.index, d.gpa, d.len, d.flags.next, d.flags.write, d.next));
        }
    }
    found
}

// ---- Runs ----

#[test]
fn fresh_books_are_stopped() {
    let books = books();
    assert_eq!(books.allowed_features, 0xff);
    assert!(!books.enabled && !books.attached && books.tx_sync);
    assert_eq!(books.yields_left, 512);
    assert_eq!(books.actions_left, 256);
    assert_eq!(books.tx_max_packets, usize::MAX);
    assert_eq!((books.rx.desc_addr, books.rx.avail_addr, books.rx.used_addr), (0, 0x1000, 0x2000));
    assert_eq!((books.tx.desc_addr, books.tx.avail_addr, books.tx.used_addr), (0x10000, 0x11000, 0x12000));
}

#[test]
fn run_begins_with_mode_and_features_from_the_input() {
    let bytes = [2, 0x0f, 0xff, 0, 0, 4, 0, 0, 0, 9];
    let mut input = Unstructured::new(&bytes);
    let mut books = books();
    let ops = books.begin(&mut input).expect("never fails");
    assert!(!books.tx_sync);
    assert!(books.enabled);
    assert_eq!(text(&ops), start_text(0x0f));
    assert_eq!(input.len(), 1);
    assert!(books.next_action_due(&input));
}

#[test]
fn run_begins_on_an_empty_input() {
    let mut input = Unstructured::new(&[]);
    let mut books = books();
    let ops = books.begin(&mut input).expect("never fails");
    assert!(!books.tx_sync);
    assert_eq!(text(&ops), start_text(0));
    assert!(!books.next_action_due(&input));
    assert_eq!(books.actions_left, 256);
}

#[test]
fn net_actions_are_bounded() {
    let bytes = [0];
    let input = Unstructured::new(&bytes);
    let mut books = books();
    for _ in 0..MAX_ACTIONS {
        assert!(books.next_action_due(&input));
    }
    assert!(!books.next_action_due(&input));
}

#[test]
fn net_yields_are_bounded() {
    let mut books = books();
    for _ in 0..MAX_YIELDS {
        assert!(books.yield_now());
    }
    assert!(!books.yield_now());
    assert_eq!(books.yields_left, 0);
}

#[test]
fn every_action_is_followed_by_drains_and_a_yield() {
    assert_eq!(
        text(&books().after_action()),
        vec![
            "DrainUsed { rx: true, limit: 64 }",
            "DrainUsed { rx: false, limit: 64 }",
            "Yield { count: 1 }"
        ]
    );
}

// ---- Receive chains ----

#[test]
fn receive_chain_is_posted_and_kicked() {
    let mut books = started(false);
    let ops = books.run_action(Action::PostRx { segments: 1, len: 600 });
    assert_eq!(
        descriptors(&ops),
        vec![(0, 0x20000, 87, true, true, 1), (1, 0x20057, 87, false, true, 0)]
    );
    assert_eq!(text(&ops)[2..], ["MakeAvailable { rx: true, head: 0 }", "Kick { rx: true }"]);
    assert_eq!(books.rx.chain_len[0], 2);
    let ops = books.run_action(Action::PostRx { segments: 2, len: 512 });
    assert_eq!(descriptors(&ops), vec![(2, 0x200ae, 512, false, true, 0)]);
}

#[test]
fn full_table_posts_nothing() {
    let mut books = started(false);
    for _ in 0..8 {
        assert!(!books.run_action(Action::PostRx { segments: 1, len: 1 }).is_empty());
    }
    let data = books.data;
    assert!(books.run_action(Action::PostRx { segments: 0, len: 1 }).is_empty());
    assert_eq!(books.data, data);
    books.drain_used(true, &vec![4]);
    let ops = books.run_action(Action::PostRx { segments: 0, len: 1 });
    assert_eq!(descriptors(&ops)[0].0, 4);
}

#[test]
fn receive_chain_beyond_the_budget_is_a_no_op() {
    let mut books = started(false);
    books.data.budget = 199;
    let data = books.data;
    assert!(books.run_action(Action::PostRx { segments: 1, len: 100 }).is_empty());
    assert_eq!(books.data, data);
    assert_eq!(books.rx.busy, [false; 16]);
    assert_eq!(books.rx.chain_len, [0; 16]);
    books.data.budget = 200;
    let ops = books.run_action(Action::PostRx { segments: 1, len: 100 });
    assert_eq!(ops.len(), 4);
    assert_eq!(books.data.budget, 0);
}

// ---- Transmit chains ----

#[test]
fn transmit_chain_starts_with_its_header() {
    let header = [1, 2, 3, 4, 5, 6, 7, 8, 9, 10, 11, 12];
    let mut books = started(false);
    let ops = books.run_action(Action::PostTx { header, header_len: 3, segments: 1, len: 40 });
    match ops[0] {
        Op::WriteHeader { gpa, header: written } => {
            assert_eq!(gpa, 0x20000);
            assert_eq!(written, header);
        }
        _ => panic!("not a header write"),
    }
    assert_eq!(
        descriptors(&ops),
        vec![
            (0, 0x20000, 12, true, false, 1),
            (1, 0x2000c, 40, true, false, 2),
            (2, 0x20034, 40, false, false, 0)
        ]
    );
    assert_eq!(text(&ops)[4..], ["MakeAvailable { rx: false, head: 0 }", "Kick { rx: false }"]);
    assert_eq!(books.tx.chain_len[0], 3);
    assert_eq!(books.data.budget, MAX_TOTAL_BYTES - 92);
}

#[test]
fn header_length_follows_the_byte() {
    for (header_len, announced, next) in
        [(0, 0, 0x2000c), (1, 6, 0x2000c), (2, 16, 0x20010), (3, 12, 0x2000c), (7, 12, 0x2000c), (8, 0, 0x2000c)]
    {
        let mut books = started(false);
        let ops =
            books.run_action(Action::PostTx { header: [0; 12], header_len, segments: 0, len: 0 });
        assert_eq!(descriptors(&ops)[0].2, announced);
        assert_eq!(descriptors(&ops)[1].1, next);
    }
}

#[test]
fn transmit_chain_beyond_the_budget_is_a_no_op() {
    let action = Action::PostTx { header: [0; 12], header_len: 3, segments: 1, len: 100 };
    for budget in [0, 11, 12, 50, 112, 211] {
        let mut books = started(false);
        books.data.budget = budget;
        let data = books.data;
        assert!(books.run_action(action).is_empty());
        assert_eq!(books.data, data);
        assert_eq!(books.tx.busy, [false; 16]);
        assert_eq!(books.tx.chain_len, [0; 16]);
    }
    let mut books = started(false);
    books.data.budget = 212;
    assert_eq!(books.run_action(action).len(), 6);
    assert_eq!(books.data.budget, 0);
}

#[test]
fn longest_input_describes_bounded_bytes() {
    let bytes = [0];
    let input = Unstructured::new(&bytes);
    let mut books = started(false);
    let mut described: u64 = 0;
    while books.next_action_due(&input) {
        let i = books.actions_left;
        let action = if i % 16 == 0 {
            Action::Restart { features: 0 }
        } else {
            Action::PostTx { header: [0; 12], header_len: 2, segments: 3, len: 512 }
        };
        let bytes: u64 = descriptors(&books.run_action(action)).iter().map(|d| d.2 as u64).sum();
        assert!(bytes <= 2064);
        described += bytes;
        books.drain_used(false, &(0..16).collect());
    }
    assert_eq!(described, 240 * 2064);
    assert!(described <= MAX_TOTAL_BYTES);
}

#[test]
fn posted_buffers_stay_in_the_arena() {
    let mut books = started(false);
    let mut described: u64 = 0;
    for i in 0..3000u32 {
        let action = if i % 2 == 0 {
            Action::PostRx { segments: i as u8, len: i as u16 }
        } else {
            Action::PostTx { header: [0; 12], header_len: i as u8, segments: i as u8, len: i as u16 }
        };
        for (index, gpa, len, _, _, _) in descriptors(&books.run_action(action)) {
            assert!(index < 16);
            assert!(0x20000 <= gpa && gpa + len as u64 <= TOTAL_MEM_SIZE);
            described += len as u64;
        }
        books.drain_used(true, &(0..16).collect());
        books.drain_used(false, &(0..16).collect());
    }
    assert!(described <= MAX_TOTAL_BYTES);
    assert!(books.data.budget < 2064);
}

#[test]
fn slots_in_flight_are_not_rewritten() {
    let mut books = started(false);
    for i in 0..40u8 {
        let before = books.tx.busy;
        let ops = books.run_action(Action::PostTx { header: [0; 12], header_len: 3, segments: i, len: 8 });
        for (index, _, _, _, _, _) in descriptors(&ops) {
            assert!(!before[index as usize]);
            assert!(books.tx.busy[index as usize]);
        }
        books.drain_used(false, &vec![(i % 16) as u16]);
    }
}

// ---- Backend requests ----

#[test]
fn backend_is_left_alone_without_a_handle() {
    let mut books = started(false);
    assert!(books.run_action(Action::InjectRx { len: 1, ip: 0, l4: 0, segmented: false }).is_empty());
    assert!(books.run_action(Action::SetTxMode { sync: false, max_packets: 2 }).is_empty());
    assert!(books.run_action(Action::CompleteTx { count: 1 }).is_empty());
    assert!(!books.tx_sync);
    assert_eq!(books.tx_max_packets, 3);
}

#[test]
fn requests_reach_an_attached_backend() {
    let mut books = started(true);
    assert_eq!(
        text(&books.run_action(Action::InjectRx { len: 300, ip: 5, l4: 6, segmented: true })),
        vec![
            "Backend(Inject(RxInject { len: 300, ip_checksum: Good, l4_checksum: Bad, segmented: true }))"
        ]
    );
    assert_eq!(
        text(&books.run_action(Action::SetTxMode { sync: false, max_packets: 255 })),
        vec!["Backend(SetTxMode { sync: false, max_packets: 8 })"]
    );
    assert_eq!(
        text(&books.run_action(Action::CompleteTx { count: 200 })),
        vec!["Backend(CompleteTx { count: 200 })"]
    );
}

#[test]
fn transmit_mode_outlives_a_restart() {
    let mut books = started(true);
    let mut backend: QueueShared<()> = QueueShared::new();
    for op in books.run_action(Action::SetTxMode { sync: false, max_packets: 8 }) {
        if let Op::Backend(request) = op {
            backend.request(request);
        }
    }
    assert_eq!((backend.tx_sync, backend.tx_max_packets), (false, 1));
    books.run_action(Action::Restart { features: 0 });
    assert_eq!(books.attach(true), Attach::Connect { tx_sync: false, tx_max_packets: 1 });
}

#[test]
fn never_told_to_consume_nothing() {
    for max_packets in 0..=255 {
        let mut books = started(true);
        let ops = books.run_action(Action::SetTxMode { sync: true, max_packets });
        match ops[0] {
            Op::Backend(BackendOp::SetTxMode { max_packets, .. }) => {
                assert!((1..=8).contains(&max_packets))
            }
            _ => panic!("not a mode change"),
        }
    }
}

// ---- Queue lifecycle ----

#[test]
fn start_negotiates_offered_bits_only() {
    let mut books = books();
    let ops = books.run_action(Action::Start { features: u64::MAX });
    assert_eq!(text(&ops), start_text(0xff));
    assert!(books.enabled && !books.attached);
    assert!(books.run_action(Action::Start { features: 1 }).is_empty());
}

#[test]
fn start_forgets_slots_in_flight() {
    let mut books = books();
    books.run_action(Action::PostRx { segments: 1, len: 1 });
    books.rx.avail_idx = 1;
    books.run_action(Action::Start { features: 0 });
    assert_eq!(books.rx.busy, [false; 16]);
    assert_eq!(books.rx.avail_idx, 0);
}

#[test]
fn handle_is_asked_for_while_yields_last() {
    let mut books = started(false);
    assert_eq!(books.attach(false), Attach::Yield);
    assert_eq!((books.yields_left, books.tries_left), (511, 31));
    books.yields_left = 0;
    assert!(books.handle_due());
    assert_eq!(books.attach(false), Attach::GiveUp);
    assert!(!books.handle_due());
    assert_eq!(books.attach(true), Attach::GiveUp);
    assert!(!books.attached);
}

#[test]
fn handle_that_arrived_is_taken_once() {
    let mut books = started(false);
    books.attach(false);
    assert_eq!(books.attach(true), Attach::Connect { tx_sync: true, tx_max_packets: usize::MAX });
    assert!(books.attached);
    assert!(!books.handle_due());
    assert_eq!(books.attach(true), Attach::GiveUp);
    assert!(books.attached);
}

#[test]
fn handle_is_asked_for_a_bounded_number_of_times() {
    let mut books = started(false);
    for _ in 0..32 {
        assert!(books.handle_due());
        assert_eq!(books.attach(false), Attach::Yield);
    }
    assert!(!books.handle_due());
    assert_eq!(books.attach(false), Attach::GiveUp);
    assert_eq!(books.attach(true), Attach::GiveUp);
    assert_eq!(books.yields_left, 480);
    assert!(!books.attached);
    books.run_action(Action::Restart { features: 0 });
    assert_eq!(books.tries_left, 32);
    books.run_action(Action::Stop);
    assert!(!books.handle_due());
}

#[test]
fn stop_takes_the_transmit_half_first() {
    let mut books = started(true);
    assert_eq!(text(&books.run_action(Action::Stop)), stop_text());
    assert!(!books.enabled && !books.attached);
    assert!(books.run_action(Action::Stop).is_empty());
}

#[test]
fn reset_stops_running_queues() {
    let mut books = started(true);
    let mut expected = stop_text();
    expected.push("ResetDevice".to_string());
    assert_eq!(text(&books.run_action(Action::Reset)), expected);
    assert_eq!(text(&books.run_action(Action::Reset)), vec!["ResetDevice"]);
    assert_eq!(text(&books.reset()), vec!["ResetDevice"]);
}

#[test]
fn rings_are_rebuilt_only_while_stopped() {
    let mut books = started(false);
    books.run_action(Action::PostRx { segments: 0, len: 1 });
    assert!(books.run_action(Action::RebuildRings).is_empty());
    assert!(books.rx.busy[0]);
    books.run_action(Action::Stop);
    assert_eq!(text(&books.run_action(Action::RebuildRings)), vec!["InitRings"]);
    assert!(!books.rx.busy[0]);
    assert_eq!(text(&books.rebuild_rings()), vec!["InitRings"]);
}

#[test]
fn restart_starts_everything_over() {
    let mut books = started(true);
    books.run_action(Action::PostTx { header: [9; 12], header_len: 2, segments: 3, len: 77 });
    let ops = books.run_action(Action::Restart { features: 0x13 });
    let mut expected = stop_text();
    expected.push("ResetDevice".to_string());
    expected.push("InitRings".to_string());
    expected.extend(start_text(0x13));
    assert_eq!(text(&ops), expected);
    assert_eq!(books.data, DataAlloc::new());
    assert_eq!(books.tx.busy, [false; 16]);
    assert!(books.enabled && !books.attached);
}

#[test]
fn failure_is_armed_once_in_eight() {
    for key in 0..=255u8 {
        let mut books = started(true);
        let ops = books.run_action(Action::FailTxPoll { fatal: true, key, features: 0x21 });
        if key % 8 != 0 {
            assert!(ops.is_empty());
            assert!(books.attached);
        } else {
            let mut expected = vec![
                "Backend(FailTxPoll { fatal: true })".to_string(),
                "Yield { count: 4 }".to_string(),
            ];
            expected.extend(stop_text());
            expected.push("ResetDevice".to_string());
            expected.extend(start_text(0x21));
            assert_eq!(text(&ops), expected);
            assert!(books.enabled && !books.attached);
        }
    }
}

#[test]
fn failure_without_a_backend_still_recovers_the_device() {
    let mut books = books();
    let ops = books.run_action(Action::FailTxPoll { fatal: false, key: 16, features: 0 });
    let mut expected = vec!["Yield { count: 4 }".to_string(), "ResetDevice".to_string()];
    expected.extend(start_text(0));
    assert_eq!(text(&ops), expected);
}

#[test]
fn small_actions_take_one_op() {
    let mut books = books();
    assert_eq!(text(&books.run_action(Action::Kick { rx: true })), vec!["Kick { rx: true }"]);
    assert_eq!(text(&books.run_action(Action::Kick { rx: false })), vec!["Kick { rx: false }"]);
    assert_eq!(text(&books.run_action(Action::Yield { count: 0 })), vec!["Yield { count: 1 }"]);
    assert_eq!(text(&books.run_action(Action::Yield { count: 7 })), vec!["Yield { count: 8 }"]);
    assert_eq!(text(&books.run_action(Action::Yield { count: 8 })), vec!["Yield { count: 1 }"]);
    assert_eq!(
        text(&books.run_action(Action::DrainUsed { rx: false })),
        vec!["DrainUsed { rx: false, limit: 64 }"]
    );
}

#[test]
fn drain_frees_the_queue_it_read() {
    let mut books = started(false);
    books.run_action(Action::PostRx { segments: 0, len: 1 });
    books.run_action(Action::PostTx { header: [0; 12], header_len: 3, segments: 0, len: 1 });
    books.drain_used(true, &vec![0]);
    assert!(!books.rx.busy[0]);
    assert!(books.tx.busy[0]);
    books.drain_used(false, &vec![0]);
    assert_eq!(books.tx.busy, [false; 16]);
}

#[test]
fn lifecycle_ops_come_in_order() {
    let mut books = books();
    let mut running = false;
    for i in 0..300u32 {
        let action = match i * 7 % 11 {
            0 => Action::Stop,
            1 => Action::Reset,
            2 => Action::RebuildRings,
            3 => Action::Start { features: i as u64 },
            4 => Action::Restart { features: i as u64 },
            5 => Action::FailTxPoll { fatal: false, key: i as u8, features: 0 },
            6 => Action::PostRx { segments: i as u8, len: i as u16 },
            _ => Action::Kick { rx: true },
        };
        for op in books.run_action(action) {
            match op {
                Op::ResetDevice | Op::InitRings => assert!(!running),
                Op::StartQueue { features, .. } => {
                    assert_eq!(features & !0xff, 0);
                    running = true;
                }
                Op::StopQueue { index: 0 } => running = false,
                _ => {}
            }
        }
        assert_eq!(running, books.enabled);
        assert_eq!(books.allowed_features, 0xff);
    }
}

#[test]
fn available_ring_is_never_overrun() {
    let mut books = started(false);
    let (mut rx_unseen, mut tx_unseen): (Vec<u16>, Vec<u16>) = (Vec::new(), Vec::new());
    for i in 0..2000u32 {
        let action = match i % 7 {
            0..=2 => Action::PostRx { segments: 0, len: 1 },
            3..=5 => Action::PostTx { header: [0; 12], header_len: 3, segments: i as u8, len: 1 },
            _ if i % 211 == 6 => Action::Restart { features: 0 },
            _ => Action::Kick { rx: true },
        };
        for op in books.run_action(action) {
            match op {
                Op::InitRings => {
                    rx_unseen.clear();
                    tx_unseen.clear();
                }
                Op::MakeAvailable { rx: true, head } => {
                    assert!(!rx_unseen.contains(&head));
                    rx_unseen.push(head);
                }
                Op::MakeAvailable { rx: false, head } => {
                    assert!(!tx_unseen.contains(&head));
                    tx_unseen.push(head);
                }
                _ => {}
            }
        }
        if i % 9 == 8 {
            let used = (i % 16) as u16;
            books.drain_used(true, &vec![used]);
            books.drain_used(false, &vec![used]);
            rx_unseen.retain(|head| *head != used);
            tx_unseen.retain(|head| *head != used);
        }
        for (queue, unseen) in [(&books.rx, &rx_unseen), (&books.tx, &tx_unseen)] {
            assert!(unseen.len() <= 16);
            assert_eq!(queue.chain_len.iter().filter(|len| **len > 0).count(), unseen.len());
        }
    }
}
