use nova_core::error::Error;
use nova_core::gsp::cmdq::{GspCmdq, GspCommand, GspCommandElement, GspMessageElement, PlainBytes};
use nova_core::rm::common::{GspStaticConfigInfo, RmApi, RmGspResponse, RmHeader, RmMessage};
use nova_core::rm::rm_alloc::{AllocCommandWrapper, RmAllocCmd, RmAllocHeader};
use nova_core::rm::rm_control::{RmControlCmd, RmControlHeader};
use nova_core::sbuffer::{SBufferReader, SBufferWriter};

const CONTROL: u32 = 76;
const ALLOC: u32 = 103;

fn api(function: u32) -> RmApi {
    let info = GspStaticConfigInfo { h_internal_client: 0xc1d0_0001, h_internal_subdevice: 0xabcd_2080 };
    RmApi::new(info, function)
}

fn queue() -> GspCmdq {
    GspCmdq::new(0).unwrap()
}

fn peer_of(q: &GspCmdq) -> GspCmdq {
    let mut peer = queue();
    peer.gsp_mem.mem.gspq.data = q.gsp_mem.mem.cpuq.data.clone();
    peer.gsp_mem.mem.gspq.tx.write_ptr = q.gsp_mem.mem.cpuq.tx.write_ptr;
    peer
}

/// A queue that holds a response with the given status and data.
fn answered(function: u32, status: u32, data: &[u8]) -> GspCmdq {
    let mut header = RmControlHeader::new(1, 2);
    header.set_status(status);
    let mut bytes = header.to_bytes();
    bytes.extend_from_slice(data);
    let mut q = queue();
    assert_eq!(q.send_gsp_command(function, &PlainBytes { data: &bytes }), Ok(()));
    peer_of(&q)
}

#[test]
fn control_header_round_trip() {
    let mut header = RmControlHeader::new(0x11, 0x22);
    assert_eq!(header.get_status(), 0);
    header.set_client(0x33);
    header.set_status(0x44);
    header.set_params_size(0x55);
    header.set_flags(0x66);
    assert_eq!(header.get_status(), 0x44);
    let bytes = header.to_bytes();
    assert_eq!(bytes.len(), 24);
    assert_eq!(&bytes[..8], &[0x33, 0, 0, 0, 0x11, 0, 0, 0]);
    assert_eq!(&bytes[8..], &[0x22, 0, 0, 0, 0x44, 0, 0, 0, 0x55, 0, 0, 0, 0x66, 0, 0, 0]);
    let mut reader = SBufferReader::new_reader(&bytes[..10], &bytes[10..]);
    assert_eq!(RmControlHeader::new_from_sbuf(&mut reader), Ok(header));
    assert!(reader.is_empty());
    assert_eq!(RmControlHeader::new_from_sbuf(&mut reader), Err(Error::EINVAL));
}

#[test]
fn alloc_header_round_trip() {
    let mut header = RmAllocHeader::new(1, 2, 3);
    header.set_client(4);
    header.set_status(5);
    header.set_params_size(6);
    header.set_flags(7);
    assert_eq!(header.get_status(), 5);
    let bytes = header.to_bytes();
    let words: Vec<u8> = bytes.chunks(4).map(|c| c[0]).collect();
    assert_eq!(bytes.len(), 32);
    assert_eq!(words, vec![4, 1, 2, 3, 5, 6, 7, 0]);
    let mut reader = SBufferReader::new_reader(&bytes, &[9]);
    assert_eq!(RmAllocHeader::new_from_sbuf(&mut reader), Ok(header));
    assert_eq!(reader.read_into_vec(), vec![9]);
    let mut short = SBufferReader::new_reader(&bytes[..31], &[]);
    assert_eq!(RmAllocHeader::new_from_sbuf(&mut short), Err(Error::EINVAL));
}

#[test]
fn message_is_header_and_parameters() {
    let header = RmAllocHeader::new(1, 2, 3);
    let msg = RmMessage { header, params: Some(&[7, 8]) };
    assert_eq!(msg.size(), 34);
    let cmd = AllocCommandWrapper::from_message(msg);
    assert_eq!(cmd.size(), 34);
    let mut writer = SBufferWriter::new_writer(34);
    assert_eq!(cmd.copy_to_sbuf(&mut writer), Ok(()));
    let bytes = writer.into_vec();
    assert_eq!(&bytes[..32], &header.to_bytes()[..]);
    assert_eq!(&bytes[32..], &[7, 8]);
    let mut small = SBufferWriter::new_writer(33);
    assert_eq!(cmd.copy_to_sbuf(&mut small), Err(Error::ETOOSMALL));
    assert_eq!(small.into_vec(), bytes[..33].to_vec());
    let mut smaller = SBufferWriter::new_writer(5);
    assert_eq!(cmd.copy_to_sbuf(&mut smaller), Err(Error::ETOOSMALL));
    assert_eq!(smaller.into_vec(), bytes[..5].to_vec());

    let cmd = RmControlCmd::new(RmControlHeader::new(1, 2), None);
    assert_eq!(cmd.size(), 24);
    assert_eq!(<RmControlCmd<RmControlHeader>>::function(), CONTROL);
    assert_eq!(<RmAllocCmd<RmAllocHeader>>::function(), ALLOC);
}

#[test]
fn response_holds_header_and_data() {
    let header = RmControlHeader::new(1, 2);
    let bytes = header.to_bytes();
    let mut reader = SBufferReader::new_reader(&bytes, &[1, 2, 3]);
    let response = RmGspResponse::<RmControlHeader>::new_from_sbuf(&mut reader).unwrap();
    assert_eq!(response.header, header);
    assert_eq!(response.data, vec![1, 2, 3]);
    assert_eq!(RmGspResponse::<RmControlHeader>::fixed_size(), 24);
}

#[test]
fn control_request_reaches_peer() {
    let mut q = queue();
    assert_eq!(api(CONTROL).send_control(&mut q, 0x2080_0a01, Some(&[1, 2, 3, 4])), Ok(()));
    assert_eq!(q.seq, 1);
    let mut peer = peer_of(&q);
    let response: RmGspResponse<RmControlHeader> = peer.receive(CONTROL).unwrap();
    assert_eq!(
        response.header,
        RmControlHeader {
            h_client: 0xc1d0_0001,
            h_object: 0xabcd_2080,
            cmd: 0x2080_0a01,
            status: 0,
            params_size: 4,
            flags: 0,
        }
    );
    assert_eq!(response.data.len(), 0x1000 - 80 - 24);
    assert_eq!(&response.data[..5], &[1, 2, 3, 4, 0]);
}

#[test]
fn control_request_is_one_on_any_handle() {
    for function in [ALLOC, 11] {
        let mut q = queue();
        assert_eq!(api(function).send_control(&mut q, 0x2080_0a01, None), Ok(()));
        let mut peer = peer_of(&q);
        assert_eq!(peer.poll_message(24).unwrap().rpc.function, CONTROL);
        let request: RmGspResponse<RmControlHeader> = peer.receive(CONTROL).unwrap();
        assert_eq!(request.header.h_object, 0xabcd_2080);
        assert_eq!(request.header.cmd, 0x2080_0a01);

        let mut q = answered(CONTROL, 0, &[5, 6]);
        let answer = api(function).control_api().response_step::<RmControlHeader>(&mut q, 0);
        assert_eq!(&answer.unwrap().unwrap().data[..2], &[5, 6]);
    }
}

#[test]
fn alloc_request_reaches_peer() {
    let mut q = queue();
    let mut header = RmAllocHeader::new(1, 2, 3);
    header.set_status(99);
    header.set_flags(99);
    assert_eq!(api(ALLOC).send_request(&mut q, header, None), Ok(()));
    let mut peer = peer_of(&q);
    let response: RmGspResponse<RmAllocHeader> = peer.receive(ALLOC).unwrap();
    assert_eq!(response.header.h_client, 0xc1d0_0001);
    assert_eq!(response.header.h_class, 3);
    assert_eq!(response.header.status, 0);
    assert_eq!(response.header.params_size, 0);
    assert_eq!(response.header.flags, 0);
}

#[test]
fn unknown_function_is_refused() {
    let mut q = queue();
    let header = RmControlHeader::new(1, 2);
    assert_eq!(api(75).send_request(&mut q, header, None), Err(Error::EINVAL));
    assert_eq!(q.seq, 0);
}

#[test]
fn request_waits_for_space() {
    let mut q = queue();
    let params = vec![0u8; 62 * 0x1000];
    assert_eq!(api(CONTROL).send_control(&mut q, 1, Some(&params)), Err(Error::EAGAIN));
    let params = vec![0u8; 62 * 0x1000 - 80 - 24];
    assert_eq!(api(CONTROL).send_control(&mut q, 1, Some(&params)), Ok(()));
    assert_eq!(q.gsp_mem.cpu_write_ptr(), 62);
}

/// One look for a response on `q`.
fn look(q: &mut GspCmdq, elapsed_us: u64) -> Option<Result<RmGspResponse<RmControlHeader>, Error>> {
    api(CONTROL).response_step(q, elapsed_us)
}

#[test]
fn response_is_parsed() {
    let mut q = answered(CONTROL, 0, &[5, 6]);
    let response = look(&mut q, 0).unwrap().unwrap();
    assert_eq!(q.gsp_mem.cpu_read_ptr(), 1);
    let parsed = RmApi::parse_response(response, |data: &[u8]| Ok(data[..3].to_vec()));
    assert_eq!(parsed, Ok(vec![5, 6, 0]));

    let response = look(&mut answered(CONTROL, 0, &[5, 6]), 0).unwrap().unwrap();
    let parsed: Result<(), Error> = RmApi::parse_response(response, |_: &[u8]| Err(Error::ERANGE));
    assert_eq!(parsed, Err(Error::ERANGE));
}

#[test]
fn failed_request_is_an_error() {
    let mut q = answered(CONTROL, 0x1f, &[5, 6]);
    let response = api(CONTROL).poll_response::<RmControlHeader>(&mut q).unwrap().unwrap();
    assert_eq!(response.header.status, 0x1f);
    let parsed: Result<(), Error> = RmApi::parse_response(response, |_: &[u8]| unreachable!());
    assert_eq!(parsed, Err(Error::EIO));
}

#[test]
fn response_of_another_function_is_dropped() {
    let mut q = answered(11, 0, &[]);
    assert_eq!(look(&mut q, 0).unwrap().err(), Some(Error::ERANGE));
    assert_eq!(q.gsp_mem.cpu_read_ptr(), 1);
}

#[test]
fn waiting_for_a_response_ends() {
    let mut q = queue();
    let received: Result<RmGspResponse<RmControlHeader>, Error> = q.receive(CONTROL);
    assert_eq!(received.err(), Some(Error::EAGAIN));
    assert!(look(&mut q, 5_000_000).is_none());
    assert_eq!(look(&mut q, 5_000_001).unwrap().err(), Some(Error::ETIMEDOUT));
}

#[test]
fn subdevice_handle_comes_from_static_info() {
    assert_eq!(api(CONTROL).subdevice_handle(), 0xabcd_2080);
}
