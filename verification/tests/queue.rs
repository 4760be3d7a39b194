use nova_core::error::Error;
use nova_core::gsp::cmdq::{GspCmdq, PlainBytes, WrittenBytes};
use nova_core::gsp::function::decode_gsp_function;
use nova_core::gsp::fw::{
    page_count, GspMsgElement, GspRpcHeader, MsgqTxHeader, GSP_PAGE_SIZE, MSGQ_DATA_SIZE,
    MSGQ_NUM_PAGES, MSG_ELEMENT_SIZE,
};
use nova_core::gsp::mem::{DmaGspMem, Run, CMDQ_OFFSET, NUM_PTES, POST_PTE_OFFSET, STATQ_OFFSET};
use nova_core::sbuffer::SBufferReader;

const INIT: u32 = 74;
const LOG: u32 = 11;

fn queue() -> GspCmdq {
    GspCmdq::new(0x10_0000).unwrap()
}

fn memory(cpu_write: u32, gsp_read: u32, gsp_write: u32, cpu_read: u32) -> DmaGspMem {
    let mut mem = DmaGspMem::new(0).unwrap();
    mem.mem.cpuq.tx.write_ptr = cpu_write;
    mem.mem.gspq.rx.read_ptr = gsp_read;
    mem.mem.gspq.tx.write_ptr = gsp_write;
    mem.mem.cpuq.rx.read_ptr = cpu_read;
    mem
}

fn run(start: usize, len: usize) -> Run {
    Run { start, len }
}

/// A queue whose status ring is the command ring of `q`, read from page `from` on.
fn peer_of(q: &GspCmdq, from: u32) -> GspCmdq {
    let mut peer = queue();
    peer.gsp_mem.mem.gspq.data = q.gsp_mem.mem.cpuq.data.clone();
    peer.gsp_mem.mem.gspq.tx.write_ptr = q.gsp_mem.mem.cpuq.tx.write_ptr;
    peer.gsp_mem.mem.cpuq.rx.read_ptr = from;
    peer
}

#[test]
fn pages_are_counted_up() {
    assert_eq!(page_count(0), 0);
    assert_eq!(page_count(1), 1);
    assert_eq!(page_count(0x1000), 1);
    assert_eq!(page_count(0x1001), 2);
}

#[test]
fn layout_of_shared_memory() {
    assert_eq!(POST_PTE_OFFSET, 0x1000);
    assert_eq!(CMDQ_OFFSET, 0x1000);
    assert_eq!(STATQ_OFFSET, 0x41000);
    assert_eq!(NUM_PTES, 129);
    assert!(NUM_PTES * 8 <= GSP_PAGE_SIZE);
    assert_eq!(MSGQ_DATA_SIZE, MSGQ_NUM_PAGES as usize * GSP_PAGE_SIZE);
}

#[test]
fn new_memory_is_set_up() {
    let mem = DmaGspMem::new(0x1234_5000).unwrap();
    assert_eq!(mem.handle, 0x1234_5000);
    assert_eq!(mem.mem.ptes.len(), 512);
    assert_eq!(mem.mem.ptes[0], 0x1234_5000);
    assert_eq!(mem.mem.ptes[3], 0x1234_8000);
    assert_eq!(
        mem.mem.cpuq.tx,
        MsgqTxHeader {
            version: 0,
            size: 0x40000,
            msg_size: 0x1000,
            msg_count: 63,
            write_ptr: 0,
            flags: 1,
            rx_hdr_off: 32,
            entry_off: 0x1000,
        }
    );
    assert_eq!(mem.mem.cpuq.rx.read_ptr, 0);
    assert_eq!(mem.mem.gspq.tx.size, 0);
    assert_eq!(mem.mem.cpuq.data, vec![0u8; 0x3f000]);
    assert_eq!(mem.mem.gspq.data.len(), 0x3f000);
}

#[test]
fn memory_too_high_overflows() {
    let last = u64::MAX - 0x1f_f000;
    assert!(DmaGspMem::new(last).is_ok());
    assert_eq!(DmaGspMem::new(last + 1).err(), Some(Error::EOVERFLOW));
    assert_eq!(GspCmdq::new(u64::MAX).err(), Some(Error::EOVERFLOW));
}

#[test]
fn write_area_leaves_one_page_free() {
    assert_eq!(memory(0, 0, 0, 0).driver_write_area(), (run(0, 62), run(0, 0)));
    assert_eq!(memory(5, 0, 0, 0).driver_write_area(), (run(5, 57), run(0, 0)));
    assert_eq!(memory(5, 3, 0, 0).driver_write_area(), (run(5, 58), run(0, 2)));
    assert_eq!(memory(3, 5, 0, 0).driver_write_area(), (run(3, 1), run(0, 0)));
    assert_eq!(memory(4, 5, 0, 0).driver_write_area(), (run(4, 0), run(0, 0)));
    assert_eq!(memory(62, 0, 0, 0).driver_write_area(), (run(62, 0), run(0, 0)));
}

#[test]
fn command_pages_have_one_owner() {
    for tx in 0..MSGQ_NUM_PAGES {
        for rx in 0..MSGQ_NUM_PAGES {
            let mem = memory(tx, rx, 0, 0);
            let (a, b) = mem.driver_write_area();
            let queued = (tx + MSGQ_NUM_PAGES - rx) % MSGQ_NUM_PAGES;
            for page in 0..MSGQ_NUM_PAGES {
                let p = page as usize;
                let driver = (a.start <= p && p < a.start + a.len) || p < b.len;
                let gsp = (page + MSGQ_NUM_PAGES - rx) % MSGQ_NUM_PAGES < queued;
                let gap = (page + 1) % MSGQ_NUM_PAGES == rx;
                assert_eq!(driver as u32 + gsp as u32 + gap as u32, 1);
            }
        }
    }
}

#[test]
fn read_area_is_between_the_pointers() {
    assert_eq!(memory(0, 0, 7, 7).driver_read_area(), (run(7, 0), run(0, 0)));
    assert_eq!(memory(0, 0, 9, 7).driver_read_area(), (run(7, 2), run(0, 0)));
    assert_eq!(memory(0, 0, 2, 60).driver_read_area(), (run(60, 3), run(0, 2)));
    assert_eq!(memory(0, 0, 0, 60).driver_read_area(), (run(60, 3), run(0, 0)));
}

#[test]
fn pointers_are_reduced() {
    let mem = memory(63, 64, 126, 130);
    assert_eq!(mem.cpu_write_ptr(), 0);
    assert_eq!(mem.gsp_read_ptr(), 1);
    assert_eq!(mem.gsp_write_ptr(), 0);
    assert_eq!(mem.cpu_read_ptr(), 4);
}

#[test]
fn pointers_wrap_at_the_end_of_the_ring() {
    let mut mem = memory(62, 0, 0, 61);
    mem.advance_cpu_write_ptr(2);
    assert_eq!(mem.mem.cpuq.tx.write_ptr, 1);
    mem.advance_cpu_write_ptr(62);
    assert_eq!(mem.mem.cpuq.tx.write_ptr, 0);
    mem.advance_cpu_read_ptr(1);
    assert_eq!(mem.mem.cpuq.rx.read_ptr, 62);
    mem.advance_cpu_read_ptr(3);
    assert_eq!(mem.mem.cpuq.rx.read_ptr, 2);
}

#[test]
fn commands_are_allocated_in_two_runs() {
    let mem = memory(61, 10, 0, 0);
    assert_eq!(mem.allocate_command(100), Ok((run(61 * 0x1000, 100), run(0, 0))));
    assert_eq!(mem.allocate_command(0x2000), Ok((run(61 * 0x1000, 0x2000), run(0, 0))));
    assert_eq!(mem.allocate_command(0x2001), Ok((run(61 * 0x1000, 0x2000), run(0, 1))));
    assert_eq!(mem.allocate_command(11 * 0x1000), Ok((run(61 * 0x1000, 0x2000), run(0, 0x9000))));
    assert_eq!(mem.allocate_command(11 * 0x1000 + 1), Err(Error::EAGAIN));
}

#[test]
fn header_of_a_message() {
    let h = GspMsgElement::new(7, 0x1000, INIT);
    assert_eq!(
        h,
        GspMsgElement {
            check_sum: 0,
            seq_num: 7,
            elem_count: 2,
            rpc: GspRpcHeader {
                header_version: 0x0300_0000,
                signature: 0x4350_5256,
                length: 0x1020,
                function: 74,
                rpc_result: 0xffff_ffff,
                rpc_result_private: 0xffff_ffff,
                sequence: 0,
                cpu_rm_gfid: 0,
            },
        }
    );
    let bytes = h.to_bytes();
    assert_eq!(bytes.len(), MSG_ELEMENT_SIZE);
    assert_eq!(&bytes[..32], &[0u8; 32]);
    assert_eq!(&bytes[36..44], &[7, 0, 0, 0, 2, 0, 0, 0]);
    assert_eq!(&bytes[52..60], b"VRPC\x20\x10\0\0");
    assert_eq!(GspMsgElement::from_bytes(&bytes), h);
}

#[test]
fn sent_command_is_in_the_ring() {
    let mut q = queue();
    assert_eq!(q.dma_handle(), 0x10_0000);
    assert_eq!(q.send_gsp_command(INIT, &PlainBytes { data: &[1, 2, 3, 4] }), Ok(()));
    assert_eq!(q.seq, 1);
    assert_eq!(q.gsp_mem.cpu_write_ptr(), 1);
    let ring = &q.gsp_mem.mem.cpuq.data;
    let header = GspMsgElement::from_bytes(ring);
    assert_eq!(header.seq_num, 0);
    assert_eq!(header.elem_count, 1);
    assert_eq!(header.rpc.function, INIT);
    assert_eq!(header.rpc.length, 36);
    assert_eq!(&ring[80..84], &[1, 2, 3, 4]);
    assert!(ring[84..].iter().all(|&b| b == 0));
    let whole = SBufferReader::new_reader(&ring[..84], &[]);
    assert_eq!(GspCmdq::calculate_checksum(&whole), 0);
}

#[test]
fn sent_message_is_received() {
    let mut q = queue();
    let payload: Vec<u8> = (0..200u8).collect();
    let cmd = PlainBytes { data: &[5, 6, 7] };
    let sent = q.send_gsp_command_with_payload(LOG, &cmd, 200, &PlainBytes { data: &payload });
    assert_eq!(sent, Ok(()));
    let mut peer = peer_of(&q, 0);
    let header = peer.poll_message(3).unwrap();
    assert_eq!(header.rpc.length, 235);
    assert!(peer.message_fits(LOG, 3));
    let (head, rest) = peer.take_message(LOG, 3).unwrap();
    assert_eq!(head, vec![5, 6, 7]);
    assert_eq!(rest.len(), 0x1000 - 83);
    assert_eq!(&rest[..200], &payload[..]);
    assert!(rest[200..].iter().all(|&b| b == 0));
    assert_eq!(peer.gsp_mem.cpu_read_ptr(), 1);
    assert_eq!(peer.poll_message(0), None);
}

#[test]
fn message_wraps_around_the_ring() {
    let mut q = queue();
    q.gsp_mem.mem.cpuq.tx.write_ptr = 62;
    q.gsp_mem.mem.gspq.rx.read_ptr = 62;
    let payload: Vec<u8> = (0..0x1800usize).map(|i| (i % 251) as u8).collect();
    let cmd = PlainBytes { data: &[0xaa; 16] };
    let sent = q.send_gsp_command_with_payload(LOG, &cmd, 0x1800, &PlainBytes { data: &payload });
    assert_eq!(sent, Ok(()));
    assert_eq!(q.gsp_mem.cpu_write_ptr(), 1);
    let first = 0x1000 - 96;
    let ring = &q.gsp_mem.mem.cpuq.data;
    assert_eq!(&ring[62 * 0x1000 + 96..], &payload[..first]);
    assert_eq!(&ring[..0x1800 - first], &payload[first..]);

    let mut peer = peer_of(&q, 62);
    let (head, rest) = peer.take_message(LOG, 16).unwrap();
    assert_eq!(head, vec![0xaa; 16]);
    assert_eq!(&rest[..0x1800], &payload[..]);
    assert_eq!(peer.gsp_mem.cpu_read_ptr(), 1);
}

#[test]
fn sending_appends() {
    let mut q = queue();
    assert_eq!(q.send_gsp_command(INIT, &PlainBytes { data: &[1] }), Ok(()));
    let before = q.gsp_mem.mem.cpuq.data[..0x1000].to_vec();
    assert_eq!(q.send_gsp_command(LOG, &PlainBytes { data: &[2] }), Ok(()));
    assert_eq!(&q.gsp_mem.mem.cpuq.data[..0x1000], &before[..]);
    let mut peer = peer_of(&q, 0);
    peer.gsp_mem.mem.gspq.tx.write_ptr = 1;
    let (head, _) = peer.take_message(INIT, 1).unwrap();
    assert_eq!(head, vec![1]);
    peer.gsp_mem.mem.gspq.tx.write_ptr = 2;
    assert_eq!(peer.poll_message(1).unwrap().seq_num, 1);
    let (head, _) = peer.take_message(LOG, 1).unwrap();
    assert_eq!(head, vec![2]);
}

#[test]
fn dropping_moves_to_next_message() {
    let mut q = queue();
    assert_eq!(q.send_gsp_command(INIT, &PlainBytes { data: &[1] }), Ok(()));
    assert_eq!(q.send_gsp_command(LOG, &PlainBytes { data: &[2] }), Ok(()));
    let mut peer = peer_of(&q, 0);
    let (head, rest) = peer.take_message(INIT, 1).unwrap();
    assert_eq!(head, vec![1]);
    assert_eq!(rest.len(), 0x2000 - 81);
    assert_eq!(peer.poll_message(1).unwrap().rpc.function, LOG);
    let (head, rest) = peer.take_message(LOG, 1).unwrap();
    assert_eq!(head, vec![2]);
    assert_eq!(rest.len(), 0x1000 - 81);
    assert_eq!(peer.poll_message(0), None);
}

#[test]
fn ring_never_fills_up() {
    let mut q = queue();
    let cmd = PlainBytes { data: &[1] };
    for i in 0..62 {
        assert_eq!(q.send_gsp_command(LOG, &cmd), Ok(()));
        assert_eq!(q.seq, i + 1);
    }
    let before = q.gsp_mem.mem.cpuq.data.clone();
    assert_eq!(q.send_gsp_command(LOG, &cmd), Err(Error::EAGAIN));
    assert_eq!(q.seq, 62);
    assert_eq!(q.gsp_mem.mem.cpuq.data, before);
    assert_ne!(q.gsp_mem.cpu_write_ptr(), q.gsp_mem.gsp_read_ptr());
    q.gsp_mem.mem.gspq.rx.read_ptr = 1;
    assert_eq!(q.send_gsp_command(LOG, &cmd), Ok(()));
    assert_eq!(q.gsp_mem.cpu_write_ptr(), 0);
    assert_eq!(q.send_gsp_command(LOG, &cmd), Err(Error::EAGAIN));
}

#[test]
fn payload_must_fill_its_room() {
    let mut q = queue();
    let cmd = PlainBytes { data: &[1] };
    let payload = PlainBytes { data: &[1, 2, 3] };
    assert_eq!(q.send_gsp_command_with_payload(LOG, &cmd, 4, &payload), Err(Error::EINVAL));
    assert_eq!(q.send_gsp_command_with_payload(LOG, &cmd, 2, &payload), Err(Error::ETOOSMALL));
    assert_eq!(q.seq, 0);
    assert_eq!(q.gsp_mem.cpu_write_ptr(), 0);
    assert_eq!(q.send_gsp_command_internal(LOG, &cmd, 3, &payload), Ok(()));
}

/// An element that fails after two of its four bytes.
const FAILING: WrittenBytes =
    WrittenBytes { data: &[0xaa, 0xbb], size: 4, outcome: Err(Error::ENOMEM) };

/// Checks what a failed send has left at page 62 of a ring of 0xee.
fn check_left_behind(q: &GspCmdq, size: usize, left: &[u8]) {
    let at = 62 * GSP_PAGE_SIZE;
    let ring = &q.gsp_mem.mem.cpuq.data;
    let mut expected = GspMsgElement::new(0, size, LOG).to_bytes();
    expected.extend_from_slice(left);
    let split = expected.len().min(GSP_PAGE_SIZE);
    assert_eq!(&ring[at..at + split], &expected[..split]);
    assert_eq!(&ring[..expected.len() - split], &expected[split..]);
    assert!(ring[at + split..].iter().all(|&b| b == 0xee));
    assert!(ring[expected.len() - split..at].iter().all(|&b| b == 0xee));
    assert_eq!(q.seq, 0);
    assert_eq!(q.gsp_mem.cpu_write_ptr(), 62);
}

/// An empty queue whose pointers are at the last page of a ring of 0xee.
fn dirty_queue() -> GspCmdq {
    let mut q = queue();
    q.gsp_mem.mem.cpuq.data = vec![0xee; MSGQ_DATA_SIZE];
    q.gsp_mem.mem.cpuq.tx.write_ptr = 62;
    q.gsp_mem.mem.gspq.rx.read_ptr = 62;
    q
}

#[test]
fn failed_send_leaves_what_it_has_written() {
    let cmd = PlainBytes { data: &[1, 2] };
    let payload = PlainBytes { data: &[3, 4, 5] };

    let mut q = dirty_queue();
    assert_eq!(q.send_gsp_command_with_payload(LOG, &cmd, 4, &payload), Err(Error::EINVAL));
    check_left_behind(&q, 6, &[1, 2, 3, 4, 5]);

    let mut q = dirty_queue();
    assert_eq!(q.send_gsp_command_with_payload(LOG, &cmd, 2, &payload), Err(Error::ETOOSMALL));
    check_left_behind(&q, 4, &[1, 2, 3, 4]);

    let mut q = dirty_queue();
    assert_eq!(q.send_gsp_command_with_payload(LOG, &cmd, 4, &FAILING), Err(Error::ENOMEM));
    check_left_behind(&q, 6, &[1, 2, 0xaa, 0xbb]);

    let mut q = dirty_queue();
    assert_eq!(q.send_gsp_command_with_payload(LOG, &FAILING, 3, &payload), Err(Error::ENOMEM));
    check_left_behind(&q, 7, &[0xaa, 0xbb]);

    let mut q = dirty_queue();
    let long = vec![7u8; 0x1800];
    let short = q.send_gsp_command_with_payload(LOG, &cmd, 0x1900, &PlainBytes { data: &long });
    assert_eq!(short, Err(Error::EINVAL));
    let mut left = vec![1, 2];
    left.extend_from_slice(&long);
    check_left_behind(&q, 0x1902, &left);
}

#[test]
fn send_without_space_changes_nothing() {
    let mut q = dirty_queue();
    q.gsp_mem.mem.gspq.rx.read_ptr = 0;
    assert_eq!(q.send_gsp_command(LOG, &PlainBytes { data: &[1] }), Err(Error::EAGAIN));
    assert_eq!(q.gsp_mem.mem.cpuq.data, vec![0xee; MSGQ_DATA_SIZE]);
}

#[test]
fn failed_send_keeps_queue() {
    let mut q = queue();
    let cmd = PlainBytes { data: &[1] };
    assert_eq!(q.send_gsp_command(INIT, &cmd), Ok(()));
    let queued = q.gsp_mem.mem.cpuq.data[..0x1000].to_vec();
    assert_eq!(q.send_gsp_command_with_payload(LOG, &cmd, 4, &FAILING), Err(Error::ENOMEM));
    assert_eq!(&q.gsp_mem.mem.cpuq.data[..0x1000], &queued[..]);
    assert_eq!(q.seq, 1);
    let (head, _) = peer_of(&q, 0).take_message(INIT, 1).unwrap();
    assert_eq!(head, vec![1]);
}

#[test]
fn messages_are_numbered() {
    let mut q = queue();
    let cmd = PlainBytes { data: &[1] };
    let payload = PlainBytes { data: &[1, 2, 3] };
    let mut sent = 0;
    for size in [3, 4, 3, 2, 70 * 0x1000, 3] {
        let page = q.gsp_mem.cpu_write_ptr();
        let r = q.send_gsp_command_with_payload(LOG, &cmd, size, &payload);
        if r.is_ok() {
            let at = page as usize * GSP_PAGE_SIZE;
            let header = GspMsgElement::from_bytes(&q.gsp_mem.mem.cpuq.data[at..]);
            assert_eq!(header.seq_num, sent);
            sent += 1;
        } else {
            assert_eq!(q.gsp_mem.cpu_write_ptr(), page);
        }
        assert_eq!(q.seq, sent);
    }
    assert_eq!(sent, 3);
}

#[test]
fn failed_send_needs_no_number() {
    let mut q = queue();
    q.seq = u32::MAX;
    let cmd = PlainBytes { data: &[1] };
    let payload = PlainBytes { data: &[1, 2, 3] };
    assert_eq!(q.send_gsp_command_with_payload(LOG, &cmd, 4, &payload), Err(Error::EINVAL));
    assert_eq!(q.seq, u32::MAX);
}

#[test]
fn altered_message_is_refused() {
    let mut q = queue();
    assert_eq!(q.send_gsp_command(LOG, &PlainBytes { data: &[1, 2, 3] }), Ok(()));
    for i in 0..83 {
        let mut peer = peer_of(&q, 0);
        peer.gsp_mem.mem.gspq.data[i] ^= 0x10;
        let whole = SBufferReader::new_reader(&peer.gsp_mem.mem.gspq.data[..83], &[]);
        assert_ne!(GspCmdq::calculate_checksum(&whole), 0);
        if peer.poll_message(3).is_some() && peer.message_fits(LOG, 3) {
            assert!(peer.take_message(LOG, 3).is_err());
        }
    }
}

#[test]
fn message_of_another_function_is_dropped() {
    let mut q = queue();
    let payload = vec![3u8; 0x1000];
    let cmd = PlainBytes { data: &[] };
    assert_eq!(
        q.send_gsp_command_with_payload(LOG, &cmd, 0x1000, &PlainBytes { data: &payload }),
        Ok(())
    );
    let mut peer = peer_of(&q, 0);
    assert_eq!(peer.take_message(INIT, 0), Err(Error::ERANGE));
    assert_eq!(peer.gsp_mem.cpu_read_ptr(), 2);
    assert_eq!(peer.poll_message(0), None);
}

#[test]
fn corrupted_message_stays() {
    let mut q = queue();
    assert_eq!(q.send_gsp_command(LOG, &PlainBytes { data: &[1, 2] }), Ok(()));
    let mut peer = peer_of(&q, 0);
    peer.gsp_mem.mem.gspq.data[81] ^= 1;
    assert_eq!(peer.take_message(LOG, 2), Err(Error::EIO));
    assert_eq!(peer.gsp_mem.cpu_read_ptr(), 0);
    peer.gsp_mem.mem.gspq.data[81] ^= 1;
    assert!(peer.take_message(LOG, 2).is_ok());
}

#[test]
fn stale_bytes_spoil_the_checksum() {
    let mut q = queue();
    q.gsp_mem.mem.cpuq.data[0x800] = 0x55;
    assert_eq!(q.send_gsp_command(LOG, &PlainBytes { data: &[1, 2] }), Ok(()));
    assert_eq!(peer_of(&q, 0).take_message(LOG, 2), Err(Error::EIO));
    q.gsp_mem.mem.cpuq.data[0x808] = 0x55;
    let (head, rest) = peer_of(&q, 0).take_message(LOG, 2).unwrap();
    assert_eq!(head, vec![1, 2]);
    assert_eq!(rest[0x800 - 82], 0x55);
}

#[test]
fn short_message_is_not_ready() {
    let mut q = queue();
    assert_eq!(q.send_gsp_command(LOG, &PlainBytes { data: &[1, 2] }), Ok(()));
    let peer = peer_of(&q, 0);
    assert!(peer.poll_message(34).is_some());
    assert!(peer.poll_message(35).is_none());
    assert!(peer.message_fits(LOG, 0x1000 - 80));
    assert!(!peer.message_fits(LOG, 0x1000 - 79));
    assert!(peer.message_fits(INIT, 0x1000 - 79));
}

#[test]
fn waiting_for_a_message_ends() {
    let empty = queue();
    assert_eq!(empty.wait_step(4, 0, 10), None);
    assert_eq!(empty.wait_step(4, 10, 10), None);
    assert_eq!(empty.wait_step(4, 11, 10), Some(Err(Error::ETIMEDOUT)));
    let mut q = queue();
    assert_eq!(q.send_gsp_command(LOG, &PlainBytes { data: &[1, 2, 3, 4] }), Ok(()));
    let header = peer_of(&q, 0).wait_step(4, 11, 10).unwrap().unwrap();
    assert_eq!(header.rpc.function, LOG);
    let full = peer_of(&q, 0);
    let first = |looks: &[(&GspCmdq, u64)]| {
        looks.iter().find_map(|(q, elapsed)| q.wait_step(4, *elapsed, 10))
    };
    assert_eq!(first(&[(&empty, 0), (&empty, 9)]), None);
    assert_eq!(first(&[(&empty, 0), (&full, 20), (&empty, 30)]), Some(Ok(header)));
    assert_eq!(first(&[(&empty, 0), (&empty, 20), (&full, 30)]), Some(Err(Error::ETIMEDOUT)));
}

#[test]
fn received_message_is_handed_on() {
    let mut q = queue();
    assert_eq!(q.send_gsp_command(LOG, &PlainBytes { data: &[1, 2, 3, 4] }), Ok(()));
    let mut peer = peer_of(&q, 0);
    let r = peer.receive_msg_from_gsp(
        LOG,
        2,
        |data: &[u8]| Some(data.to_vec()),
        |cmd: Vec<u8>, payload: SBufferReader| {
            assert_eq!(cmd, vec![1, 2]);
            assert_eq!(payload.peek(0), 3);
            assert_eq!(payload.peek(1), 4);
            Ok(payload.len())
        },
    );
    assert_eq!(r, Ok(0x1000 - 82));
    assert_eq!(peer.gsp_mem.cpu_read_ptr(), 1);
}

#[test]
fn received_message_is_dropped_whatever_comes_of_it() {
    let mut q = queue();
    assert_eq!(q.send_gsp_command(LOG, &PlainBytes { data: &[1, 2, 3, 4] }), Ok(()));
    let mut peer = peer_of(&q, 0);
    let r: Result<(), Error> = peer.receive_msg_from_gsp(
        LOG,
        2,
        |_: &[u8]| Some(()),
        |_: (), _: SBufferReader| Err(Error::ENOMEM),
    );
    assert_eq!(r, Err(Error::ENOMEM));
    assert_eq!(peer.gsp_mem.cpu_read_ptr(), 1);
}

#[test]
fn unwanted_message_is_not_handed_on() {
    let mut q = queue();
    assert_eq!(q.send_gsp_command(LOG, &PlainBytes { data: &[1, 2, 3, 4] }), Ok(()));
    let receive = |peer: &mut GspCmdq, function: u32, parsed: Option<()>| {
        let init = |_: (), _: SBufferReader| -> Result<(), Error> { unreachable!() };
        peer.receive_msg_from_gsp(function, 2, |_: &[u8]| parsed, init)
    };
    let mut peer = peer_of(&q, 0);
    assert_eq!(receive(&mut peer, LOG, None), Err(Error::EINVAL));
    assert_eq!(peer.gsp_mem.cpu_read_ptr(), 0);
    peer.gsp_mem.mem.gspq.data[90] = 1;
    assert_eq!(receive(&mut peer, LOG, Some(())), Err(Error::EIO));
    assert_eq!(peer.gsp_mem.cpu_read_ptr(), 0);
    assert_eq!(receive(&mut peer, INIT, Some(())), Err(Error::ERANGE));
    assert_eq!(peer.gsp_mem.cpu_read_ptr(), 1);
}

#[test]
fn message_that_cannot_be_read_need_not_be_counted() {
    let mut q = queue();
    assert_eq!(q.send_gsp_command(LOG, &PlainBytes { data: &[1, 2] }), Ok(()));
    let mut peer = peer_of(&q, 0);
    peer.gsp_mem.mem.gspq.data[56..60].copy_from_slice(&[0xff; 4]);
    let sum = {
        let page = SBufferReader::new_reader(&peer.gsp_mem.mem.gspq.data[..0x1000], &[]);
        GspCmdq::calculate_checksum(&page)
    };
    for (i, byte) in sum.to_le_bytes().iter().enumerate() {
        peer.gsp_mem.mem.gspq.data[32 + i] ^= byte;
    }
    assert!(!peer.message_fits(LOG, 2));
    assert_eq!(peer.peek_message(2), Some(&[1u8, 2][..]));
    assert_eq!(peer.peek_message(0x1000), None);
    let r: Result<(), Error> = peer.receive_msg_from_gsp(
        LOG,
        2,
        |_: &[u8]| None::<()>,
        |_: (), _: SBufferReader| unreachable!(),
    );
    assert_eq!(r, Err(Error::EINVAL));
    assert_eq!(peer.gsp_mem.cpu_read_ptr(), 0);
}

#[test]
fn functions_have_names() {
    let names = [
        (0, "NOP"),
        (1, "SET_GUEST_SYSTEM_INFO"),
        (2, "ALLOC_ROOT"),
        (3, "ALLOC_DEVICE"),
        (4, "ALLOC_MEMORY"),
        (5, "ALLOC_CTX_DMA"),
        (6, "ALLOC_CHANNEL_DMA"),
        (7, "MAP_MEMORY"),
        (8, "BIND_CTX_DMA"),
        (9, "ALLOC_OBJECT"),
        (10, "FREE"),
        (11, "LOG"),
        (65, "GET_GSP_STATIC_INFO"),
        (72, "GSP_SET_SYSTEM_INFO"),
        (73, "SET_REGISTRY"),
        (74, "GSP_INIT_POST_OBJGPU"),
        (76, "GSP_RM_CONTROL"),
        (77, "GET_STATIC_INFO"),
        (0x1001, "INIT_DONE"),
        (0x1002, "RUN_CPU_SEQUENCER"),
        (0x1003, "POST_EVENT"),
        (0x1004, "RC_TRIGGERED"),
        (0x1005, "MMU_FAULT_QUEUED"),
        (0x1006, "OS_ERROR_LOG"),
        (0x100c, "LIBOS_PRINT"),
        (0x101c, "LOCKDOWN_NOTICE"),
        (0x1020, "NOCAT"),
        (103, "UNKNOWN"),
        (0xffff_ffff, "UNKNOWN"),
    ];
    for (code, name) in names {
        assert_eq!(decode_gsp_function(code), name);
    }
}
