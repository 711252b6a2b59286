use virtio_fuzz::blk::chain::{encode_header, link_chain, payload_len, Buffer, Fill};
use virtio_fuzz::blk::grammar::{pick_sector, Action, ChainSpec, ReqSpec};
use virtio_fuzz::blk::harness::{Harness, Overrun, Step, Submission};
use virtio_fuzz::blk::layout::{
    BAD_GPA, DATA_BASE, DATA_END, MAX_ACTIONS, MAX_CHAINS, MAX_TOTAL_PAYLOAD_BYTES, MAX_YIELDS,
    MEM_SIZE,
};
use virtio_fuzz::ring::{Descriptor, DescriptorFlags, RING_PACKED_BIT};

use arbitrary::Unstructured;

type Books = Harness<u32>;

fn books() -> Books {
    Harness::new(0, 0)
}

fn plain(req: ReqSpec, payload_len: u16) -> ChainSpec {
    ChainSpec {
        req,
        payload_len,
        sector_aligned: false,
        frags: 0,
        gap_between_frags: false,
        writable_payload: false,
        short_header: false,
        omit_status: false,
        readable_status: false,
        zero_len_desc: false,
        bad_gpa: false,
        indirect_flag: false,
        kick: false,
    }
}

fn submit(books: &mut Books, spec: &ChainSpec) -> Submission {
    books.submit(spec).expect("chains left")
}

fn shape(submission: &Submission) -> Vec<(u64, u32, bool)> {
    submission.descriptors.iter().map(|d| (d.gpa, d.len, d.flags.write)).collect()
}

// ---- Sectors ----

#[test]
fn even_input_picks_a_disk_sector() {
    assert_eq!(pick_sector(0), 0);
    assert_eq!(pick_sector(10), 5);
    assert_eq!(pick_sector(254), 127);
    assert_eq!(pick_sector(2 * 128), 0);
    assert_eq!(pick_sector(u64::MAX - 1), 127);
}

#[test]
fn odd_input_is_passed_through() {
    assert_eq!(pick_sector(1), 1);
    assert_eq!(pick_sector(257), 257);
    assert_eq!(pick_sector(u64::MAX), u64::MAX);
}

#[test]
fn every_disk_sector_is_reachable() {
    for sector in 0..128 {
        assert_eq!(pick_sector(2 * sector), sector);
    }
}

// ---- Headers ----

#[test]
fn in_header_is_little_endian() {
    let header = encode_header(ReqSpec::In { sector: 6 });
    assert_eq!(header, vec![0, 0, 0, 0, 0, 0, 0, 0, 3, 0, 0, 0, 0, 0, 0, 0]);
}

#[test]
fn out_header_keeps_an_odd_sector() {
    let header = encode_header(ReqSpec::Out { sector: 0x8070_6050_4030_2011 });
    assert_eq!(
        header,
        vec![1, 0, 0, 0, 0, 0, 0, 0, 0x11, 0x20, 0x30, 0x40, 0x50, 0x60, 0x70, 0x80]
    );
}

#[test]
fn flush_and_get_id_have_sector_zero() {
    assert_eq!(encode_header(ReqSpec::Flush), vec![4, 0, 0, 0, 0, 0, 0, 0, 0, 0, 0, 0, 0, 0, 0, 0]);
    assert_eq!(encode_header(ReqSpec::GetId), vec![8, 0, 0, 0, 0, 0, 0, 0, 0, 0, 0, 0, 0, 0, 0, 0]);
}

#[test]
fn unknown_request_keeps_its_type() {
    let header = encode_header(ReqSpec::Unknown { request_type: 0x0102_0304, sector: 4 });
    assert_eq!(header, vec![4, 3, 2, 1, 0, 0, 0, 0, 2, 0, 0, 0, 0, 0, 0, 0]);
}

#[test]
fn discard_header_carries_its_segment() {
    let header = encode_header(ReqSpec::Discard { sector: 20, num_sectors: 0x300, flags: 0x8000_0001 });
    assert_eq!(
        header,
        vec![
            11, 0, 0, 0, 0, 0, 0, 0, 0, 0, 0, 0, 0, 0, 0, 0, 10, 0, 0, 0, 0, 0, 0, 0, 0, 3, 0, 0, 1,
            0, 0, 0x80
        ]
    );
}

// ---- Payload ----

#[test]
fn payload_is_held_to_the_chain_bound() {
    let spec = plain(ReqSpec::Flush, 65535);
    assert_eq!(payload_len(&spec, 32768), 16384);
}

#[test]
fn aligned_payload_is_rounded_up_to_sectors() {
    let mut spec = plain(ReqSpec::Flush, 1);
    spec.sector_aligned = true;
    assert_eq!(payload_len(&spec, 32768), 512);
    spec.payload_len = 512;
    assert_eq!(payload_len(&spec, 32768), 512);
    spec.payload_len = 513;
    assert_eq!(payload_len(&spec, 32768), 1024);
    spec.payload_len = 0;
    assert_eq!(payload_len(&spec, 32768), 0);
    spec.payload_len = 16383;
    assert_eq!(payload_len(&spec, 32768), 16384);
}

#[test]
fn get_id_payload_is_held_to_the_identifier() {
    let mut spec = plain(ReqSpec::GetId, 100);
    assert_eq!(payload_len(&spec, 32768), 20);
    spec.payload_len = 7;
    assert_eq!(payload_len(&spec, 32768), 7);
    spec.sector_aligned = true;
    assert_eq!(payload_len(&spec, 32768), 20);
}

#[test]
fn payload_is_held_to_the_budget() {
    let spec = plain(ReqSpec::Flush, 1000);
    assert_eq!(payload_len(&spec, 10), 10);
    assert_eq!(payload_len(&spec, 0), 0);
}

// ---- Chains ----

#[test]
fn chain_is_laid_out_in_order() {
    let mut books = books();
    let mut spec = plain(ReqSpec::In { sector: 0 }, 1001);
    spec.frags = 1;
    spec.writable_payload = true;
    spec.kick = true;
    let chain = submit(&mut books, &spec);
    assert_eq!(chain.header_gpa, 0x10000);
    assert_eq!(chain.header.len(), 16);
    assert_eq!(
        chain.fills,
        vec![
            Fill { gpa: 0x10010, len: 500, byte: 0xcc },
            Fill { gpa: 0x10204, len: 501, byte: 0xcc }
        ]
    );
    assert_eq!(chain.status, Some(Fill { gpa: 0x103f9, len: 1, byte: 0xff }));
    assert_eq!(
        chain.descriptors,
        vec![
            Descriptor {
                index: 0,
                gpa: 0x10000,
                len: 16,
                flags: DescriptorFlags { next: true, write: false, indirect: false },
                next: 1,
            },
            Descriptor {
                index: 1,
                gpa: 0x10010,
                len: 500,
                flags: DescriptorFlags { next: true, write: true, indirect: false },
                next: 2,
            },
            Descriptor {
                index: 2,
                gpa: 0x10204,
                len: 501,
                flags: DescriptorFlags { next: true, write: true, indirect: false },
                next: 3,
            },
            Descriptor {
                index: 3,
                gpa: 0x103f9,
                len: 1,
                flags: DescriptorFlags { next: false, write: true, indirect: false },
                next: 4,
            },
        ]
    );
    assert_eq!(chain.head, 0);
    assert!(chain.kick);
    assert_eq!(books.next_data, 0x103fa);
    assert_eq!(books.next_desc, 4);
    assert_eq!(books.payload_budget, 32768 - 1001);
    assert_eq!(books.chains_submitted, 1);
}

#[test]
fn empty_payload_has_no_fragment() {
    let chain = submit(&mut books(), &plain(ReqSpec::Flush, 0));
    assert_eq!(shape(&chain), vec![(0x10000, 16, false), (0x10010, 1, true)]);
    assert!(chain.fills.is_empty());
}

#[test]
fn tiny_payload_leaves_empty_fragments() {
    let mut spec = plain(ReqSpec::Flush, 2);
    spec.frags = 3;
    let chain = submit(&mut books(), &spec);
    assert_eq!(
        shape(&chain),
        vec![
            (0x10000, 16, false),
            (0x10010, 0, false),
            (0x10010, 0, false),
            (0x10010, 0, false),
            (0x10010, 2, false),
            (0x10012, 1, true)
        ]
    );
    assert_eq!(chain.fills, vec![Fill { gpa: 0x10010, len: 2, byte: 0xcc }]);
}

#[test]
fn fragments_add_up_to_the_payload() {
    for frags in 0..8u8 {
        let mut spec = plain(ReqSpec::Flush, 4099);
        spec.frags = frags;
        let chain = submit(&mut books(), &spec);
        let parts = &chain.descriptors[1..chain.descriptors.len() - 1];
        assert_eq!(parts.len(), 1 + frags as usize % 4);
        assert_eq!(parts.iter().map(|d| d.len).sum::<u32>(), 4099);
    }
}

#[test]
fn gap_keeps_fragments_apart() {
    let mut spec = plain(ReqSpec::Flush, 64);
    spec.frags = 1;
    spec.gap_between_frags = true;
    let chain = submit(&mut books(), &spec);
    assert_eq!(
        shape(&chain),
        vec![
            (0x10000, 16, false),
            (0x10010, 32, false),
            (0x10010 + 132, 32, false),
            (0x10010 + 264, 1, true)
        ]
    );
}

#[test]
fn mutations_change_one_thing_each() {
    let mut spec = plain(ReqSpec::Flush, 0);
    spec.short_header = true;
    assert_eq!(shape(&submit(&mut books(), &spec))[0], (0x10000, 8, false));

    let mut spec = plain(ReqSpec::Flush, 0);
    spec.omit_status = true;
    let chain = submit(&mut books(), &spec);
    assert_eq!(shape(&chain), vec![(0x10000, 16, false)]);
    assert_eq!(chain.status, None);
    assert!(!chain.descriptors[0].flags.next);

    let mut spec = plain(ReqSpec::Flush, 0);
    spec.readable_status = true;
    assert_eq!(shape(&submit(&mut books(), &spec))[1], (0x10010, 1, false));

    let mut spec = plain(ReqSpec::Flush, 0);
    spec.zero_len_desc = true;
    spec.writable_payload = true;
    assert_eq!(
        shape(&submit(&mut books(), &spec)),
        vec![(0x10000, 16, false), (0x10010, 0, true), (0x10010, 1, true)]
    );

    let mut spec = plain(ReqSpec::Flush, 0);
    spec.bad_gpa = true;
    let chain = submit(&mut books(), &spec);
    assert_eq!(shape(&chain), vec![(0x10000, 16, false), (BAD_GPA, 1, true)]);
    assert_eq!(chain.status, Some(Fill { gpa: 0x10010, len: 1, byte: 0xff }));

    let mut spec = plain(ReqSpec::Flush, 0);
    spec.indirect_flag = true;
    let chain = submit(&mut books(), &spec);
    assert!(chain.descriptors[0].flags.indirect);
    assert!(!chain.descriptors[1].flags.indirect);
    assert!(!chain.kick);
}

#[test]
fn zero_length_descriptor_is_in_the_middle() {
    let mut spec = plain(ReqSpec::Flush, 64);
    spec.frags = 1;
    spec.zero_len_desc = true;
    assert_eq!(
        shape(&submit(&mut books(), &spec)),
        vec![
            (0x10000, 16, false),
            (0x10010, 32, false),
            (0x10030, 32, false),
            (0x10050, 0, false),
            (0x10050, 1, true)
        ]
    );
    spec.omit_status = true;
    let chain = submit(&mut books(), &spec);
    assert_eq!(
        shape(&chain),
        vec![
            (0x10000, 16, false),
            (0x10010, 0, false),
            (0x10010, 32, false),
            (0x10030, 32, false)
        ]
    );
    assert_eq!(chain.fills.len(), 2);
    assert_eq!(chain.status, None);
    spec.bad_gpa = true;
    let chain = submit(&mut books(), &spec);
    assert_eq!(shape(&chain)[1], (0x10010, 0, false));
    assert_eq!(shape(&chain)[3], (BAD_GPA, 32, false));
}

#[test]
fn header_alone_has_no_middle() {
    let mut spec = plain(ReqSpec::Flush, 0);
    spec.zero_len_desc = true;
    spec.omit_status = true;
    assert_eq!(
        shape(&submit(&mut books(), &spec)),
        vec![(0x10000, 16, false), (0x10010, 0, false)]
    );
}

#[test]
fn longest_chain_has_seven_descriptors() {
    let mut spec = plain(ReqSpec::Discard { sector: 0, num_sectors: 1, flags: 0 }, 4000);
    spec.frags = 3;
    spec.zero_len_desc = true;
    let chain = submit(&mut books(), &spec);
    assert_eq!(chain.descriptors.len(), 7);
    assert_eq!(chain.header.len(), 32);
}

#[test]
fn descriptor_slots_wrap_before_the_table_runs_out() {
    let mut books = books();
    let mut heads = Vec::new();
    for _ in 0..12 {
        heads.push(submit(&mut books, &plain(ReqSpec::Flush, 1)).head);
    }
    assert_eq!(heads, vec![0, 3, 6, 9, 12, 15, 18, 21, 24, 27, 0, 3]);
}

#[test]
fn chain_may_fill_the_table_to_the_end() {
    let buffers = vec![Buffer { gpa: 1, len: 2, writable: false }, Buffer { gpa: 3, len: 4, writable: true }];
    let descriptors = link_chain(&buffers, 30, true);
    assert_eq!(
        descriptors,
        vec![
            Descriptor {
                index: 30,
                gpa: 1,
                len: 2,
                flags: DescriptorFlags { next: true, write: false, indirect: true },
                next: 31,
            },
            Descriptor {
                index: 31,
                gpa: 3,
                len: 4,
                flags: DescriptorFlags { next: false, write: true, indirect: false },
                next: 32,
            },
        ]
    );
}

#[test]
fn data_region_wraps_and_stays_in_bounds() {
    let mut books = books();
    assert_eq!(books.alloc_bytes(0x3fff), DATA_BASE);
    assert_eq!(books.alloc_bytes(1), DATA_END - 1);
    assert_eq!(books.alloc_bytes(0), DATA_END);
    assert_eq!(books.alloc_bytes(1), DATA_BASE);
    assert_eq!(books.alloc_bytes(0x4000), DATA_BASE);
    assert_eq!(books.alloc_bytes(0x4000), DATA_BASE);
}

#[test]
fn busy_input_aliases_earlier_buffers() {
    let mut books = books();
    let spec = plain(ReqSpec::Flush, 16000);
    let first = submit(&mut books, &spec);
    let second = submit(&mut books, &spec);
    assert_eq!(first.fills[0].gpa, 0x10010);
    assert_eq!(second.header_gpa, 0x10010 + 16000 + 1);
    assert_eq!(second.fills[0].gpa, 0x10000);
    for chain in [&first, &second] {
        for d in &chain.descriptors {
            assert!(DATA_BASE <= d.gpa && d.gpa + d.len as u64 <= DATA_END);
        }
    }
    assert!(BAD_GPA >= MEM_SIZE);
}

#[test]
fn total_payload_is_held_to_the_budget() {
    let mut books = books();
    let mut total: u32 = 0;
    for _ in 0..4 {
        let chain = submit(&mut books, &plain(ReqSpec::Flush, 15000));
        total += chain.fills.iter().map(|f| f.len).sum::<u32>();
    }
    assert_eq!(total, MAX_TOTAL_PAYLOAD_BYTES);
    assert_eq!(books.payload_budget, 0);
}

#[test]
fn chains_are_bounded() {
    let mut books = books();
    for _ in 0..MAX_CHAINS {
        assert!(books.submit(&plain(ReqSpec::Flush, 0)).is_some());
    }
    let (next_data, next_desc) = (books.next_data, books.next_desc);
    assert!(books.submit(&plain(ReqSpec::Flush, 0)).is_none());
    assert!(books.apply(Action::Submit(plain(ReqSpec::Flush, 0))).is_empty());
    assert_eq!(books.chains_submitted, 16);
    assert_eq!((books.next_data, books.next_desc), (next_data, next_desc));
}

// ---- Completions and yields ----

#[test]
fn completions_are_counted() {
    let mut books = books();
    submit(&mut books, &plain(ReqSpec::Flush, 0));
    submit(&mut books, &plain(ReqSpec::Flush, 0));
    assert_eq!(books.drain_used(&vec![(0, 1)]), Ok(()));
    assert_eq!(books.completions, 1);
    assert_eq!(books.drain_used(&vec![]), Ok(()));
    assert_eq!(books.drain_used(&vec![(2, 1)]), Ok(()));
    assert_eq!(books.completions, 2);
}

#[test]
fn too_many_completions_are_an_overrun() {
    let mut books = books();
    submit(&mut books, &plain(ReqSpec::Flush, 0));
    assert_eq!(
        books.drain_used(&vec![(0, 1), (0, 1), (0, 1)]),
        Err(Overrun { completions: 2, chains_submitted: 1 })
    );
}

#[test]
fn yields_are_bounded() {
    let mut books = books();
    for _ in 0..MAX_YIELDS {
        assert!(books.yield_to_device());
    }
    assert!(!books.yield_to_device());
    assert_eq!(books.yields_used, 48);
}

#[test]
fn teardown_has_yields_of_its_own() {
    let mut books = books();
    books.begin();
    while books.yield_to_device() {}
    let steps = books.teardown();
    assert_eq!(steps.len(), 7);
    for step in &steps[..4] {
        assert!(matches!(step, Step::Yield));
        assert!(books.yield_to_device());
    }
    assert!(!books.yield_to_device());
    assert!(matches!(steps[4], Step::StopQueue { keep_state: false }));
    assert!(matches!(steps[5], Step::ResetDevice));
    assert!(matches!(steps[6], Step::DrainUsed { limit: 64 }));
    assert!(!books.started);
}

#[test]
fn one_input_yields_a_bounded_number_of_times() {
    let bytes = [0];
    let input = Unstructured::new(&bytes);
    let mut books = books();
    let mut granted = 0;
    let mut perform = |books: &mut Books, steps: Vec<Step<u32>>| {
        for step in steps {
            if matches!(step, Step::Yield) && books.yield_to_device() {
                granted += 1;
            }
        }
    };
    while books.next_action_due(&input) {
        let steps = books.apply(Action::Yield);
        perform(&mut books, steps);
    }
    let steps = books.teardown();
    perform(&mut books, steps);
    assert_eq!(granted, 36);
    assert!(granted <= MAX_YIELDS);
}

#[test]
fn teardown_of_a_quiet_run_starts_from_zero_yields() {
    let mut books = books();
    books.yield_to_device();
    books.teardown();
    assert_eq!(books.yields_used, 0);
}

// ---- Queue lifecycle ----

#[test]
fn run_begins_with_a_fresh_queue() {
    let mut books = books();
    books.avail_idx = 9;
    let steps = books.begin();
    assert_eq!(steps.len(), 2);
    assert!(matches!(steps[0], Step::InitRings));
    assert!(matches!(steps[1], Step::StartQueue { initial: None }));
    assert!(books.started);
    assert_eq!(books.avail_idx, 0);
}

#[test]
fn running_queue_is_left_alone() {
    let mut books = books();
    books.begin();
    assert!(books.apply(Action::Restart { use_saved_state: false }).is_empty());
    assert!(books.start(Some(3)).is_empty());
}

#[test]
fn saved_state_is_handed_back_once() {
    let mut books = books();
    books.begin();
    books.avail_idx = 5;
    books.used_idx = 4;
    let steps = books.apply(Action::StopQueue);
    assert_eq!(steps.len(), 1);
    assert!(matches!(steps[0], Step::StopQueue { keep_state: true }));
    books.queue_stopped(Some(77));
    let steps = books.apply(Action::Restart { use_saved_state: true });
    assert_eq!(steps.len(), 1);
    assert!(matches!(steps[0], Step::StartQueue { initial: Some(77) }));
    assert_eq!((books.avail_idx, books.used_idx), (5, 4));
    assert_eq!(books.saved_state, None);
}

#[test]
fn fresh_restart_keeps_the_saved_state() {
    let mut books = books();
    books.begin();
    books.apply(Action::StopQueue);
    books.queue_stopped(Some(77));
    let steps = books.apply(Action::Restart { use_saved_state: false });
    assert!(matches!(steps[0], Step::InitRings));
    assert_eq!(books.saved_state, Some(77));
}

#[test]
fn restart_of_a_running_queue_drops_the_saved_state() {
    let mut books = books();
    books.begin();
    books.saved_state = Some(77);
    assert!(books.apply(Action::Restart { use_saved_state: true }).is_empty());
    assert_eq!(books.saved_state, None);
}

#[test]
fn reset_stops_first_and_forgets_the_state() {
    let mut books = books();
    books.begin();
    let steps = books.apply(Action::Reset);
    assert_eq!(steps.len(), 2);
    assert!(matches!(steps[0], Step::StopQueue { keep_state: false }));
    assert!(matches!(steps[1], Step::ResetDevice));
    assert!(!books.started);

    books.saved_state = Some(1);
    let steps = books.apply(Action::Reset);
    assert_eq!(steps.len(), 1);
    assert!(matches!(steps[0], Step::ResetDevice));
    let steps = books.apply(Action::Restart { use_saved_state: true });
    assert!(matches!(steps[0], Step::InitRings));
    assert!(matches!(steps[1], Step::StartQueue { initial: None }));
}

#[test]
fn stopped_queue_is_not_stopped_again() {
    let mut books = books();
    assert!(books.apply(Action::StopQueue).is_empty());
}

#[test]
fn simple_actions_take_one_step() {
    let mut books = books();
    assert!(matches!(books.apply(Action::Kick)[0], Step::Kick));
    assert!(matches!(books.apply(Action::Yield)[0], Step::Yield));
    assert!(matches!(books.apply(Action::DrainUsed)[0], Step::DrainUsed { limit: 64 }));
    let steps = books.apply(Action::Submit(plain(ReqSpec::GetId, 99)));
    assert_eq!(steps.len(), 1);
    match &steps[0] {
        Step::Publish(chain) => assert_eq!(chain.fills[0].len, 20),
        _ => panic!("not a publication"),
    }
}

// ---- Input ----

#[test]
fn features_come_from_the_input() {
    let bytes = [0xff, 0x0f, 0, 0, 0x07, 0, 0, 0, 42];
    let mut input = Unstructured::new(&bytes);
    let offered = 0xf0 | RING_PACKED_BIT | 0x1_0000_0000;
    let mut books: Books = Harness::from_input(&mut input, offered).expect("never fails");
    assert_eq!(books.features, 0xf0 | 0x1_0000_0000);
    assert!(books.next_action_due(&input));
    assert_eq!(input.len(), 1);
}

#[test]
fn short_input_counts_as_zeros() {
    let bytes = [0x01, 0x02];
    let mut input = Unstructured::new(&bytes);
    let mut books: Books = Harness::from_input(&mut input, u64::MAX).expect("never fails");
    assert_eq!(books.features, 0x0201);
    assert!(!books.next_action_due(&input));
    assert_eq!(books.actions_taken, 0);
}

#[test]
fn actions_are_bounded() {
    let bytes = [1];
    let input = Unstructured::new(&bytes);
    let mut books = books();
    for _ in 0..MAX_ACTIONS {
        assert!(books.next_action_due(&input));
    }
    assert!(!books.next_action_due(&input));
    assert_eq!(books.actions_taken, 32);
}

#[test]
fn long_run_stays_in_bounds() {
    let mut books = books();
    books.begin();
    let mut spec = plain(ReqSpec::Out { sector: 7 }, 900);
    spec.frags = 2;
    for i in 0..200u32 {
        let action = match i % 6 {
            0 => Action::Submit(spec),
            1 => Action::StopQueue,
            2 => Action::Restart { use_saved_state: i % 12 == 2 },
            3 => Action::Reset,
            4 => Action::Yield,
            _ => Action::Kick,
        };
        for step in books.apply(action) {
            match step {
                Step::StopQueue { keep_state: true } => books.queue_stopped(Some(i)),
                Step::Yield => {
                    books.yield_to_device();
                }
                _ => {}
            }
        }
        assert!(books.next_desc <= 32);
        assert!(books.chains_submitted <= MAX_CHAINS);
        assert!(books.yields_used <= MAX_YIELDS);
    }
    assert_eq!(books.chains_submitted, 16);
    assert_eq!(books.payload_budget, MAX_TOTAL_PAYLOAD_BYTES - 16 * 900);
}
