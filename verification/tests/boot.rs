use nova_core::error::Error;
use nova_core::fsp::{Fsp, FspCotVersion, FspEvent, FspExchange, FspResponse};
use nova_core::gsp::gh100::{BootStep, GspMbox};
use nova_core::mctp::{MctpHeader, NvdmHeader, NVDM_TYPE_COT, NVDM_TYPE_FSP_RESPONSE};
use nova_core::poll::{PollAction, PollBudget};

fn mbox(mbox0: u32, mbox1: u32) -> GspMbox {
    GspMbox { mbox0, mbox1 }
}

fn reply(mctp: u32, nvdm: u32, command: u32, error: u32) -> Vec<u8> {
    let mut data = Vec::new();
    for word in [mctp, nvdm, 1, command, error] {
        data.extend_from_slice(&word.to_le_bytes());
    }
    data
}

const SINGLE: u32 = 0xc000_0000;
const RESPONSE: u32 = 0x1510_de7e;

#[test]
fn poll_looks_once_more_when_time_is_up() {
    let budget = PollBudget { timeout_us: 100 };
    assert_eq!(budget.step(false, 0), PollAction::Sleep);
    assert_eq!(budget.step(false, 100), PollAction::Sleep);
    assert_eq!(budget.step(false, 101), PollAction::TimedOut);
    assert_eq!(budget.step(true, 101), PollAction::Done);
}

#[test]
fn lockdown_pattern_is_found() {
    assert!(mbox(0xbadf_4100, 0).is_locked_down());
    assert!(mbox(0xbadf_41ff, 7).is_locked_down());
    assert!(!mbox(0xbadf_4200, 0).is_locked_down());
    assert!(!mbox(0, 0).is_locked_down());
}

#[test]
fn mailboxes_make_an_address() {
    assert_eq!(mbox(0x8765_4321, 0x1234_5678).combined_addr(), 0x1234_5678_8765_4321);
    assert_eq!(mbox(0, 0).combined_addr(), 0);
}

#[test]
fn lockdown_release() {
    let addr = 0x5_0000_1000;
    assert!(!mbox(0xbadf_4101, 0).lockdown_released(false, addr));
    assert!(mbox(0x31, 0).lockdown_released(true, addr));
    assert!(!mbox(0x1000, 5).lockdown_released(true, addr));
    assert!(mbox(0x1000, 5).lockdown_released(false, addr));
    assert!(!mbox(0, 0).lockdown_released(true, addr));
    assert!(mbox(0, 0).lockdown_released(false, addr));
    assert_eq!(mbox(0xbadf_4101, 0).mailbox_verdict(addr), Some(false));
    assert_eq!(mbox(0x31, 0).mailbox_verdict(addr), Some(true));
    assert_eq!(mbox(0, 0).mailbox_verdict(addr), None);
}

#[test]
fn lockdown_wait_ends() {
    assert_eq!(mbox(0, 0).lockdown_step(true, 0), Some(Ok(())));
    assert_eq!(mbox(0x31, 0).lockdown_step(true, 0), Some(Err(Error::EIO)));
    assert_eq!(mbox(0, 0).lockdown_step(false, 30_000_000), None);
    assert_eq!(mbox(0, 0).lockdown_step(false, 30_000_001), Some(Err(Error::ETIMEDOUT)));
}

#[test]
fn first_look_that_decides_gives_the_result() {
    let lockdown = |looks: &[(GspMbox, bool, u64)]| {
        looks
            .iter()
            .find_map(|(m, hw, elapsed)| m.lockdown_step(m.lockdown_released(*hw, 0x1000), *elapsed))
    };
    let locked = (mbox(0xbadf_4100, 0), true, 0);
    assert_eq!(lockdown(&[locked, (mbox(0, 0), true, 10)]), None);
    assert_eq!(lockdown(&[locked, (mbox(0, 0), false, 10), (mbox(3, 0), true, 20)]), Some(Ok(())));
    assert_eq!(lockdown(&[locked, (mbox(3, 0), true, 10)]), Some(Err(Error::EIO)));
    let late = (mbox(0, 0), true, 30_000_001);
    assert_eq!(
        lockdown(&[locked, late, (mbox(0, 0), false, 30_000_002)]),
        Some(Err(Error::ETIMEDOUT))
    );

    let boot = |looks: &[(u32, u64)]| {
        looks.iter().find_map(|(status, elapsed)| Fsp::secure_boot_step(*status, *elapsed))
    };
    assert_eq!(boot(&[(0, 0), (1, 5_000_000)]), None);
    assert_eq!(boot(&[(0, 0), (0xff, 6_000_000), (0, 7_000_000)]), Some(Ok(())));
    assert_eq!(boot(&[(0, 0), (0, 6_000_000), (0xff, 7_000_000)]), Some(Err(Error::ETIMEDOUT)));

    let reply = |looks: &[(u32, u64)]| {
        looks.iter().find_map(|(size, elapsed)| Fsp::response_step(*size, *elapsed))
    };
    assert_eq!(reply(&[(0, 0), (0, 2_000_000)]), None);
    assert_eq!(reply(&[(0, 0), (20, 3_000_000), (8, 4_000_000)]), Some(Ok(20)));
    assert_eq!(reply(&[(0, 0), (0, 3_000_000), (20, 4_000_000)]), Some(Err(Error::ETIMEDOUT)));
}

#[test]
fn boot_takes_its_steps_in_order() {
    let mut step = BootStep::OpenFsp;
    let mut taken = vec![step];
    let end = loop {
        match step.next(Ok(())) {
            Ok(next) => {
                step = next;
                taken.push(step);
            }
            Err(e) => break e,
        }
    };
    assert_eq!(end, Error::ENOTSUPP);
    assert_eq!(
        taken,
        vec![
            BootStep::OpenFsp,
            BootStep::LoadFirmware,
            BootStep::WaitSecureBoot,
            BootStep::BuildArgs,
            BootStep::BootFmc,
            BootStep::WaitLockdownRelease,
        ]
    );
}

#[test]
fn boot_ends_with_first_error() {
    assert_eq!(BootStep::OpenFsp.next(Err(Error::ENOMEM)), Err(Error::ENOMEM));
    assert_eq!(BootStep::WaitLockdownRelease.next(Err(Error::EIO)), Err(Error::EIO));
}

#[test]
fn cot_version_is_kept() {
    assert_eq!(FspCotVersion::new(2).raw(), 2);
}

#[test]
fn mctp_and_nvdm_headers() {
    assert!(MctpHeader { raw: 0xc000_0000 }.is_single_packet());
    assert!(MctpHeader { raw: 0xffff_ffff }.is_single_packet());
    assert!(!MctpHeader { raw: 0x8000_0000 }.is_single_packet());
    assert!(!MctpHeader { raw: 0x4000_0000 }.is_single_packet());
    assert!(NvdmHeader { raw: 0x1510_de7e }.validate(NVDM_TYPE_FSP_RESPONSE));
    assert!(NvdmHeader { raw: 0x1510_defe }.validate(NVDM_TYPE_FSP_RESPONSE));
    assert!(!NvdmHeader { raw: 0x1510_de7f }.validate(NVDM_TYPE_FSP_RESPONSE));
    assert!(!NvdmHeader { raw: 0x1510_dd7e }.validate(NVDM_TYPE_FSP_RESPONSE));
    assert!(!NvdmHeader { raw: 0x1410_de7e }.validate(NVDM_TYPE_FSP_RESPONSE));
    assert!(NvdmHeader { raw: 0x1410_de7e }.validate(NVDM_TYPE_COT));
}

#[test]
fn secure_boot_wait_ends() {
    assert_eq!(Fsp::secure_boot_step(0xff, 9_000_000), Some(Ok(())));
    assert_eq!(Fsp::secure_boot_step(0xfe, 5_000_000), None);
    assert_eq!(Fsp::secure_boot_step(0, 5_000_001), Some(Err(Error::ETIMEDOUT)));
}

#[test]
fn secure_boot_needs_an_fsp() {
    assert_eq!(Fsp::wait_secure_boot_step(None, 0), Some(Err(Error::ENOTSUPP)));
    assert_eq!(Fsp::wait_secure_boot_step(None, 9_000_000), Some(Err(Error::ENOTSUPP)));
    assert_eq!(Fsp::wait_secure_boot_step(Some(0xff), 0), Some(Ok(())));
    assert_eq!(Fsp::wait_secure_boot_step(Some(0), 0), None);
    assert_eq!(Fsp::wait_secure_boot_step(Some(0), 5_000_001), Some(Err(Error::ETIMEDOUT)));
}

#[test]
fn response_wait_ends() {
    assert_eq!(Fsp::response_step(20, 0), Some(Ok(20)));
    assert_eq!(Fsp::response_step(0, 2_000_000), None);
    assert_eq!(Fsp::response_step(0, 2_000_001), Some(Err(Error::ETIMEDOUT)));
}

#[test]
fn response_is_read() {
    let data = reply(SINGLE, RESPONSE, 0x14, 9);
    assert_eq!(
        FspResponse::from_bytes(&data),
        Some(FspResponse {
            mctp_header: MctpHeader { raw: SINGLE },
            nvdm_header: NvdmHeader { raw: RESPONSE },
            task_id: 1,
            command_nvdm_type: 0x14,
            error_code: 9,
        })
    );
    assert_eq!(FspResponse::from_bytes(&data[..19]), None);
}

#[test]
fn response_is_checked() {
    let good = reply(SINGLE, RESPONSE, 0x14, 0);
    assert_eq!(Fsp::check_response(&good, 0x14), Ok(()));
    assert_eq!(Fsp::check_response(&good, 0x13), Err(Error::EIO));
    assert_eq!(Fsp::check_response(&good[..19], 0x14), Err(Error::EIO));
    let mut long = good.clone();
    long.push(0);
    assert_eq!(Fsp::check_response(&long, 0x14), Err(Error::EIO));
    for bad in [
        reply(0x8000_0000, RESPONSE, 0x14, 0),
        reply(SINGLE, 0x1410_de7e, 0x14, 0),
        reply(SINGLE, RESPONSE, 0x14, 1),
    ] {
        assert_eq!(Fsp::check_response(&bad, 0x14), Err(Error::EIO));
    }
}

#[test]
fn exchange_succeeds_with_acknowledgement() {
    let state = FspExchange::Send.next(FspEvent::Sent(Ok(())), 0x14);
    assert_eq!(state, FspExchange::Poll);
    let state = state.next(FspEvent::Polled { size: 0, elapsed_us: 10 }, 0x14);
    assert_eq!(state, FspExchange::Poll);
    let state = state.next(FspEvent::Polled { size: 20, elapsed_us: 20 }, 0x14);
    assert_eq!(state, FspExchange::Receive { size: 20 });
    let done = state.next(FspEvent::Received(Ok(reply(SINGLE, RESPONSE, 0x14, 0))), 0x14);
    assert_eq!(done, FspExchange::Done(Ok(())));
    assert_eq!(done.next(FspEvent::Sent(Err(Error::EIO)), 0x14), done);
    let refused = state.next(FspEvent::Received(Ok(reply(SINGLE, RESPONSE, 0x13, 0))), 0x14);
    assert_eq!(refused, FspExchange::Done(Err(Error::EIO)));
}

#[test]
fn exchange_ends_with_first_error() {
    let failed = FspExchange::Send.next(FspEvent::Sent(Err(Error::EAGAIN)), 0x14);
    assert_eq!(failed, FspExchange::Done(Err(Error::EAGAIN)));
    let late = FspExchange::Poll.next(FspEvent::Polled { size: 0, elapsed_us: 2_000_001 }, 0x14);
    assert_eq!(late, FspExchange::Done(Err(Error::ETIMEDOUT)));
    let receive = FspExchange::Receive { size: 20 };
    let lost = receive.next(FspEvent::Received(Err(Error::ENOMEM)), 0x14);
    assert_eq!(lost, FspExchange::Done(Err(Error::ENOMEM)));
    assert_eq!(receive.next(FspEvent::Sent(Ok(())), 0x14), receive);
}
