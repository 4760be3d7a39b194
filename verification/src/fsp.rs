//! The FSP (firmware system processor) of Hopper and Blackwell GPUs, which boots the
//! GSP through a chain of trust.
use vstd::prelude::*;
use crate::bytes::{law_integers_are_little_endian, read_u32, u32_at};
use crate::error::Error;
use crate::mctp::{MctpHeader, NvdmHeader, NVDM_TYPE_FSP_RESPONSE};
use crate::poll::{first_decision, law_wait, wait_gives, PollAction, PollBudget};

verus! {

/// Version of the chain of trust protocol: 1 for Hopper, 2 for Blackwell.
#[derive(Clone, Copy, Debug)]
pub struct FspCotVersion {
    version: u16,
}

impl FspCotVersion {
    /// The version number.
    pub closed spec fn view(&self) -> u16 {
        self.version
    }

    /// A version of the protocol.
    pub fn new(version: u16) -> (r: Self)
        ensures
            r@ == version,
    {
        FspCotVersion { version }
    }

    /// The version number, as it is sent to the FSP.
    pub fn raw(self) -> (r: u16)
        ensures
            r == self@,
    {
        self.version
    }
}

/// Time between two looks while waiting for the FSP, in microseconds.
pub const FSP_POLL_SLEEP_US: u64 = 10_000;

/// Time to wait for a reply, in microseconds.
pub const FSP_MSG_TIMEOUT_US: u64 = 2_000_000;

/// Time to wait for the FSP's secure boot, in microseconds.
pub const FSP_SECURE_BOOT_TIMEOUT_US: u64 = 5_000_000;

/// What the boot status register holds once the FSP's secure boot has succeeded.
pub const FSP_BOOT_COMPLETE_STATUS_SUCCESS: u32 = 0xff;

/// Size of a reply of the FSP, in bytes.
pub const FSP_RESPONSE_SIZE: usize = 20;

/// A reply of the FSP.
#[derive(Clone, Copy, Debug, PartialEq, Eq, Structural)]
pub struct FspResponse {
    pub mctp_header: MctpHeader,
    pub nvdm_header: NvdmHeader,
    pub task_id: u32,
    /// NVDM type of the message that this is a reply to.
    pub command_nvdm_type: u32,
    pub error_code: u32,
}

impl FspResponse {
    /// The reply that `data` holds.
    pub open spec fn spec_from_bytes(data: Seq<u8>) -> Option<FspResponse> {
        if data.len() == FSP_RESPONSE_SIZE {
            Some(
                FspResponse {
                    mctp_header: MctpHeader { raw: u32_at(data, 0) },
                    nvdm_header: NvdmHeader { raw: u32_at(data, 4) },
                    task_id: u32_at(data, 8),
                    command_nvdm_type: u32_at(data, 12),
                    error_code: u32_at(data, 16),
                },
            )
        } else {
            None
        }
    }

    /// Reads a reply, which must be all of `data`.
    pub fn from_bytes(data: &[u8]) -> (r: Option<FspResponse>)
        ensures
            r == Self::spec_from_bytes(data@),
    {
        if data.len() != FSP_RESPONSE_SIZE {
            return None;
        }
        Some(
            FspResponse {
                mctp_header: MctpHeader { raw: read_u32(data, 0) },
                nvdm_header: NvdmHeader { raw: read_u32(data, 4) },
                task_id: read_u32(data, 8),
                command_nvdm_type: read_u32(data, 12),
                error_code: read_u32(data, 16),
            },
        )
    }

    /// The reply says that a message of type `nvdm_type` was carried out.
    pub open spec fn acknowledges(self, nvdm_type: u32) -> bool {
        &&& self.mctp_header.spec_is_single_packet()
        &&& self.nvdm_header.spec_validate(NVDM_TYPE_FSP_RESPONSE)
        &&& self.command_nvdm_type == nvdm_type
        &&& self.error_code == 0
    }
}

/// The FSP.
#[derive(Clone, Copy, Debug)]
pub struct Fsp;

impl Fsp {
    /// What comes of a look at the boot status register, `elapsed_us` after the first.
    pub open spec fn spec_secure_boot_step(status: u32, elapsed_us: u64) -> Option<
        Result<(), Error>,
    > {
        if status == FSP_BOOT_COMPLETE_STATUS_SUCCESS {
            Some(Ok(()))
        } else if elapsed_us > FSP_SECURE_BOOT_TIMEOUT_US {
            Some(Err(Error::ETIMEDOUT))
        } else {
            None
        }
    }

    /// What comes of a look at the size of the message that the FSP has for us,
    /// `elapsed_us` after the first.
    pub open spec fn spec_response_step(size: u32, elapsed_us: u64) -> Option<
        Result<usize, Error>,
    > {
        if size > 0 {
            Some(Ok(size as usize))
        } else if elapsed_us > FSP_MSG_TIMEOUT_US {
            Some(Err(Error::ETIMEDOUT))
        } else {
            None
        }
    }

    /// One look at the boot status register, `elapsed_us` after the first, while waiting
    /// for the FSP's secure boot. `None` means to sleep and look again.
    pub fn secure_boot_step(status: u32, elapsed_us: u64) -> (r: Option<Result<(), Error>>)
        ensures
            r == Self::spec_secure_boot_step(status, elapsed_us),
    {
        let budget = PollBudget { timeout_us: FSP_SECURE_BOOT_TIMEOUT_US };
        match budget.step(status == FSP_BOOT_COMPLETE_STATUS_SUCCESS, elapsed_us) {
            PollAction::Done => Some(Ok(())),
            PollAction::TimedOut => Some(Err(Error::ETIMEDOUT)),
            PollAction::Sleep => None,
        }
    }

    /// One look, `elapsed_us` after the first, while waiting for the FSP's secure boot, of
    /// which `status` is what the boot status register holds. There is none on a GPU that
    /// has no FSP: the wait is then over at once, with `ENOTSUPP`. `None` means to sleep and
    /// look again.
    pub fn wait_secure_boot_step(status: Option<u32>, elapsed_us: u64) -> (r: Option<
        Result<(), Error>,
    >)
        ensures
            r == (match status {
                None => Some(Err(Error::ENOTSUPP)),
                Some(status) => Self::spec_secure_boot_step(status, elapsed_us),
            }),
    {
        match status {
            Some(status) => Self::secure_boot_step(status, elapsed_us),
            None => Some(Err(Error::ENOTSUPP)),
        }
    }

    /// One look at the size of the message that the FSP has for us, `elapsed_us` after
    /// the first, while waiting for a reply. `None` means to sleep and look again;
    /// otherwise, the number of bytes to receive.
    pub fn response_step(size: u32, elapsed_us: u64) -> (r: Option<Result<usize, Error>>)
        ensures
            r == Self::spec_response_step(size, elapsed_us),
    {
        let budget = PollBudget { timeout_us: FSP_MSG_TIMEOUT_US };
        match budget.step(size > 0, elapsed_us) {
            PollAction::Done => Some(Ok(size as usize)),
            PollAction::TimedOut => Some(Err(Error::ETIMEDOUT)),
            PollAction::Sleep => None,
        }
    }

    /// What a check of the reply `data` to a message of type `nvdm_type` gives.
    pub open spec fn spec_check_response(data: Seq<u8>, nvdm_type: u32) -> Result<(), Error> {
        match FspResponse::spec_from_bytes(data) {
            Some(response) => if response.acknowledges(nvdm_type) {
                Ok(())
            } else {
                Err(Error::EIO)
            },
            None => Err(Error::EIO),
        }
    }

    /// Checks the reply to a message of type `nvdm_type`. Fails with `EIO` unless it is
    /// a whole and valid reply to such a message and reports no error.
    pub fn check_response(data: &[u8], nvdm_type: u32) -> (r: Result<(), Error>)
        ensures
            r == Self::spec_check_response(data@, nvdm_type),
    {
        if data.len() < FSP_RESPONSE_SIZE {
            return Err(Error::EIO);
        }
        let response = match FspResponse::from_bytes(data) {
            Some(response) => response,
            None => {
                return Err(Error::EIO);
            },
        };
        if !response.mctp_header.is_single_packet() {
            return Err(Error::EIO);
        }
        if !response.nvdm_header.validate(NVDM_TYPE_FSP_RESPONSE) {
            return Err(Error::EIO);
        }
        if response.command_nvdm_type != nvdm_type {
            return Err(Error::EIO);
        }
        if response.error_code != 0 {
            return Err(Error::EIO);
        }
        Ok(())
    }
}

/// What a wait for the FSP's secure boot gives in which look `i` finds `status[i]` at the
/// time `elapsed_us[i]`.
pub open spec fn secure_boot_wait(status: Seq<u32>, elapsed_us: Seq<u64>) -> Option<
    Result<(), Error>,
> {
    first_decision(
        Seq::new(status.len(), |i: int| Fsp::spec_secure_boot_step(status[i], elapsed_us[i])),
    )
}

/// What looks at the boot status find: a success, or nothing.
pub open spec fn secure_boot_found(status: Seq<u32>) -> Seq<Option<Result<(), Error>>> {
    Seq::new(
        status.len(),
        |i: int|
            if status[i] == FSP_BOOT_COMPLETE_STATUS_SUCCESS {
                Some(Ok(()))
            } else {
                None
            },
    )
}

/// Waiting for the FSP's secure boot, look by look, succeeds if a look finds that it has
/// succeeded and none before came too late, and ends with `ETIMEDOUT` only if none does.
pub proof fn law_secure_boot_wait(status: Seq<u32>, elapsed_us: Seq<u64>)
    requires
        status.len() == elapsed_us.len(),
    ensures
        wait_gives(
            secure_boot_found(status),
            elapsed_us,
            FSP_SECURE_BOOT_TIMEOUT_US,
            Err(Error::ETIMEDOUT),
            secure_boot_wait(status, elapsed_us),
        ),
{
    law_wait(
        Seq::new(status.len(), |i: int| Fsp::spec_secure_boot_step(status[i], elapsed_us[i])),
        secure_boot_found(status),
        elapsed_us,
        FSP_SECURE_BOOT_TIMEOUT_US,
        Err(Error::ETIMEDOUT),
    );
}

/// What a wait for a reply of the FSP gives in which look `i` finds the size `sizes[i]` at
/// the time `elapsed_us[i]`.
pub open spec fn response_wait(sizes: Seq<u32>, elapsed_us: Seq<u64>) -> Option<
    Result<usize, Error>,
> {
    first_decision(
        Seq::new(sizes.len(), |i: int| Fsp::spec_response_step(sizes[i], elapsed_us[i])),
    )
}

/// What looks at the size of a reply find: a size, or nothing.
pub open spec fn response_found(sizes: Seq<u32>) -> Seq<Option<Result<usize, Error>>> {
    Seq::new(
        sizes.len(),
        |i: int|
            if sizes[i] > 0 {
                Some(Ok(sizes[i] as usize))
            } else {
                None
            },
    )
}

/// Waiting for a reply of the FSP, look by look, ends with the size that the first look
/// found that is not zero, if none before it came too late, and with `ETIMEDOUT` only if
/// all are zero.
pub proof fn law_response_wait(sizes: Seq<u32>, elapsed_us: Seq<u64>)
    requires
        sizes.len() == elapsed_us.len(),
    ensures
        wait_gives(
            response_found(sizes),
            elapsed_us,
            FSP_MSG_TIMEOUT_US,
            Err(Error::ETIMEDOUT),
            response_wait(sizes, elapsed_us),
        ),
{
    law_wait(
        Seq::new(sizes.len(), |i: int| Fsp::spec_response_step(sizes[i], elapsed_us[i])),
        response_found(sizes),
        elapsed_us,
        FSP_MSG_TIMEOUT_US,
        Err(Error::ETIMEDOUT),
    );
}

/// Where an exchange with the FSP stands, which is also what to do next.
#[derive(Clone, Copy, Debug, PartialEq, Eq)]
pub enum FspExchange {
    /// Send the message.
    Send,
    /// Look at the size of the message that the FSP has for us.
    Poll,
    /// Receive a reply of `size` bytes.
    Receive { size: usize },
    /// The exchange is over.
    Done(Result<(), Error>),
}

/// What came of the last thing done in an exchange with the FSP.
pub enum FspEvent {
    /// The message was sent, or not.
    Sent(Result<(), Error>),
    /// A look at the message queue, `elapsed_us` after the first, gave `size`.
    Polled { size: u32, elapsed_us: u64 },
    /// The reply was received, or not.
    Received(Result<Vec<u8>, Error>),
}

impl FspExchange {
    /// The state that follows on `event`, in an exchange on a message of type
    /// `nvdm_type`. An event that does not answer what was to be done changes nothing.
    pub open spec fn spec_next(self, event: FspEvent, nvdm_type: u32) -> FspExchange {
        match (self, event) {
            (FspExchange::Send, FspEvent::Sent(sent)) => match sent {
                Ok(_) => FspExchange::Poll,
                Err(e) => FspExchange::Done(Err(e)),
            },
            (FspExchange::Poll, FspEvent::Polled { size, elapsed_us }) => if size > 0 {
                FspExchange::Receive { size: size as usize }
            } else if elapsed_us > FSP_MSG_TIMEOUT_US {
                FspExchange::Done(Err(Error::ETIMEDOUT))
            } else {
                FspExchange::Poll
            },
            (FspExchange::Receive { .. }, FspEvent::Received(received)) => match received {
                Ok(data) => FspExchange::Done(Fsp::spec_check_response(data@, nvdm_type)),
                Err(e) => FspExchange::Done(Err(e)),
            },
            _ => self,
        }
    }

    /// Decides what to do after `event`, in an exchange on a message of type
    /// `nvdm_type`.
    pub fn next(self, event: FspEvent, nvdm_type: u32) -> (r: FspExchange)
        ensures
            r == self.spec_next(event, nvdm_type),
    {
        match (self, event) {
            (FspExchange::Send, FspEvent::Sent(sent)) => match sent {
                Ok(_) => FspExchange::Poll,
                Err(e) => FspExchange::Done(Err(e)),
            },
            (FspExchange::Poll, FspEvent::Polled { size, elapsed_us }) => {
                match Fsp::response_step(size, elapsed_us) {
                    Some(Ok(size)) => FspExchange::Receive { size },
                    Some(Err(e)) => FspExchange::Done(Err(e)),
                    None => FspExchange::Poll,
                }
            },
            (FspExchange::Receive { .. }, FspEvent::Received(received)) => match received {
                Ok(data) => FspExchange::Done(Fsp::check_response(data.as_slice(), nvdm_type)),
                Err(e) => FspExchange::Done(Err(e)),
            },
            _ => self,
        }
    }

    /// The state after `events`, one after the other.
    pub open spec fn after(self, events: Seq<FspEvent>, nvdm_type: u32) -> FspExchange
        decreases events.len(),
    {
        if events.len() == 0 {
            self
        } else {
            self.after(events.drop_last(), nvdm_type).spec_next(events.last(), nvdm_type)
        }
    }
}

/// The event is that the message was sent.
pub open spec fn is_sent(event: FspEvent) -> bool {
    event matches FspEvent::Sent(Ok(_))
}

/// The event is that a look at the message queue found something.
pub open spec fn is_announced(event: FspEvent) -> bool {
    event matches FspEvent::Polled { size, .. } && size > 0
}

/// The event is the receipt of a reply that acknowledges a message of type `nvdm_type`.
pub open spec fn is_acknowledgement(event: FspEvent, nvdm_type: u32) -> bool {
    &&& event matches FspEvent::Received(Ok(data))
    &&& FspResponse::spec_from_bytes(data@) matches Some(response)
    &&& response.acknowledges(nvdm_type)
}

/// An exchange succeeds only if the message was sent, a look at the message queue after
/// that found something, and what was received after that acknowledges the message.
pub proof fn law_success_needs_acknowledgement(events: Seq<FspEvent>, nvdm_type: u32)
    requires
        FspExchange::Send.after(events, nvdm_type) matches FspExchange::Done(Ok(_)),
    ensures
        exists|i: int, j: int, k: int|
            0 <= i < j < k < events.len() && #[trigger] is_sent(events[i]) && #[trigger] is_announced(
                events[j],
            ) && #[trigger] is_acknowledgement(events[k], nvdm_type),
    decreases events.len(),
{
    let before = events.drop_last();
    let last = events.len() - 1;
    if FspExchange::Send.after(before, nvdm_type) matches FspExchange::Done(Ok(_)) {
        law_success_needs_acknowledgement(before, nvdm_type);
        let (i, j, k) = choose|i: int, j: int, k: int|
            0 <= i < j < k < before.len() && #[trigger] is_sent(before[i]) && #[trigger] is_announced(
                before[j],
            ) && #[trigger] is_acknowledgement(before[k], nvdm_type);
        assert(events[i] == before[i] && events[j] == before[j] && events[k] == before[k]);
    } else {
        assert(is_acknowledgement(events[last], nvdm_type));
        lemma_receiving_was_announced(before, nvdm_type);
        let (i, j) = choose|i: int, j: int|
            0 <= i < j < before.len() && #[trigger] is_sent(before[i]) && #[trigger] is_announced(
                before[j],
            );
        assert(events[i] == before[i] && events[j] == before[j]);
    }
}

/// Once the exchange is over, nothing changes its result.
pub proof fn law_result_is_final(
    events: Seq<FspEvent>,
    more: Seq<FspEvent>,
    nvdm_type: u32,
    result: Result<(), Error>,
)
    requires
        FspExchange::Send.after(events, nvdm_type) == FspExchange::Done(result),
    ensures
        FspExchange::Send.after(events + more, nvdm_type) == FspExchange::Done(result),
    decreases more.len(),
{
    if more.len() == 0 {
        assert(events + more == events);
    } else {
        law_result_is_final(events, more.drop_last(), nvdm_type, result);
        assert((events + more).drop_last() == events + more.drop_last());
    }
}

/// A reply is only awaited once the message was sent and a look at the message queue
/// found something.
proof fn lemma_receiving_was_announced(events: Seq<FspEvent>, nvdm_type: u32)
    requires
        FspExchange::Send.after(events, nvdm_type) is Receive,
    ensures
        exists|i: int, j: int|
            0 <= i < j < events.len() && #[trigger] is_sent(events[i]) && #[trigger] is_announced(
                events[j],
            ),
    decreases events.len(),
{
    let before = events.drop_last();
    let last = events.len() - 1;
    if FspExchange::Send.after(before, nvdm_type) is Receive {
        lemma_receiving_was_announced(before, nvdm_type);
        let (i, j) = choose|i: int, j: int|
            0 <= i < j < before.len() && #[trigger] is_sent(before[i]) && #[trigger] is_announced(
                before[j],
            );
        assert(events[i] == before[i] && events[j] == before[j]);
    } else {
        assert(is_announced(events[last]));
        lemma_polling_follows_sending(before, nvdm_type);
        let i = choose|i: int| 0 <= i < before.len() && #[trigger] is_sent(before[i]);
        assert(events[i] == before[i]);
    }
}

/// The message queue is only looked at once the message was sent.
proof fn lemma_polling_follows_sending(events: Seq<FspEvent>, nvdm_type: u32)
    requires
        FspExchange::Send.after(events, nvdm_type) is Poll,
    ensures
        exists|i: int| 0 <= i < events.len() && #[trigger] is_sent(events[i]),
    decreases events.len(),
{
    let before = events.drop_last();
    if FspExchange::Send.after(before, nvdm_type) is Poll {
        lemma_polling_follows_sending(before, nvdm_type);
        let i = choose|i: int| 0 <= i < before.len() && #[trigger] is_sent(before[i]);
        assert(events[i] == before[i]);
    } else {
        assert(is_sent(events[events.len() - 1]));
    }
}

/// A reply is accepted just when it has twenty bytes, of which the fourth has its two upper
/// bits set, the fifth has the message type in its lower seven bits, the next three are the
/// vendor and the type of replies, and the words at 12 and 16 are the type of the message
/// and zero. Any other is an `EIO`.
#[verifier::rlimit(40)]
pub proof fn law_accepted_replies(data: Seq<u8>, nvdm_type: u32)
    ensures
        ({
            let accepted = {
                &&& data.len() == 20
                &&& data[3] >= 0xc0
                &&& data[4] == 0x7e || data[4] == 0xfe
                &&& data[5] == 0xde
                &&& data[6] == 0x10
                &&& data[7] == 0x15
                &&& u32_at(data, 12) == nvdm_type
                &&& u32_at(data, 16) == 0
            };
            &&& accepted ==> Fsp::spec_check_response(data, nvdm_type) is Ok
            &&& !accepted ==> Fsp::spec_check_response(data, nvdm_type) == Err::<(), Error>(
                Error::EIO,
            )
        }),
{
    law_integers_are_little_endian(data, 0);
    law_integers_are_little_endian(data, 2);
    law_integers_are_little_endian(data, 4);
    law_integers_are_little_endian(data, 6);
    if data.len() == 20 {
        let response = FspResponse::spec_from_bytes(data)->Some_0;
        assert(response.mctp_header.raw == u32_at(data, 0));
        assert(response.nvdm_header.raw == u32_at(data, 4));
        assert(u32_at(data, 0) / 0x4000_0000 == 3 <==> data[3] >= 0xc0);
        assert(u32_at(data, 4) % 0x80 == data[4] % 0x80);
        assert(u32_at(data, 4) / 0x100 % 0x1_0000 == data[5] + 0x100 * data[6]);
        assert(u32_at(data, 4) / 0x100_0000 == data[7]);
    }
}

/// Where the fields of a reply are read from, and that only twenty bytes are one.
pub proof fn law_reply_is_read_from_words(data: Seq<u8>)
    ensures
        FspResponse::spec_from_bytes(data) is Some <==> data.len() == 20,
        FspResponse::spec_from_bytes(data) matches Some(response) ==> {
            &&& response.mctp_header.raw == u32_at(data, 0)
            &&& response.nvdm_header.raw == u32_at(data, 4)
            &&& response.task_id == u32_at(data, 8)
            &&& response.command_nvdm_type == u32_at(data, 12)
            &&& response.error_code == u32_at(data, 16)
        },
{
}

/// A look at the boot status finds success in `0xff` alone, at any time. Any other status is
/// looked at again up to the very end of five seconds, and given up after.
pub proof fn law_secure_boot_look(status: u32, elapsed_us: u64)
    ensures
        ({
            let r = Fsp::spec_secure_boot_step(status, elapsed_us);
            &&& status == 0xff ==> (r matches Some(Ok(_)))
            &&& status != 0xff && elapsed_us <= 5_000_000 ==> r is None
            &&& status != 0xff && elapsed_us > 5_000_000 ==> r == Some(
                Err::<(), Error>(Error::ETIMEDOUT),
            )
        }),
{
}

/// A look for a reply finds any size but zero, at any time. If it finds none, it is repeated
/// up to the very end of two seconds, and given up after.
pub proof fn law_response_look(size: u32, elapsed_us: u64)
    ensures
        ({
            let r = Fsp::spec_response_step(size, elapsed_us);
            &&& size != 0 ==> r == Some(Ok::<usize, Error>(size as usize))
            &&& size == 0 && elapsed_us <= 2_000_000 ==> r is None
            &&& size == 0 && elapsed_us > 2_000_000 ==> r == Some(
                Err::<usize, Error>(Error::ETIMEDOUT),
            )
        }),
{
}

/// The events of looking for a reply that finds `sizes[i]` at the time `elapsed_us[i]`.
pub open spec fn polls(sizes: Seq<u32>, elapsed_us: Seq<u64>) -> Seq<FspEvent> {
    Seq::new(
        sizes.len(),
        |i: int| FspEvent::Polled { size: sizes[i], elapsed_us: elapsed_us[i] },
    )
}

/// Events one after the other.
proof fn lemma_after_more(
    state: FspExchange,
    events: Seq<FspEvent>,
    event: FspEvent,
    nvdm_type: u32,
)
    ensures
        state.after(events.push(event), nvdm_type) == state.after(events, nvdm_type).spec_next(
            event,
            nvdm_type,
        ),
{
    assert(events.push(event).drop_last() =~= events);
}

/// As long as nothing is found and the time is not up, an exchange goes on looking.
pub proof fn law_exchange_keeps_polling(
    events: Seq<FspEvent>,
    sizes: Seq<u32>,
    elapsed_us: Seq<u64>,
    nvdm_type: u32,
)
    requires
        FspExchange::Send.after(events, nvdm_type) is Poll,
        sizes.len() == elapsed_us.len(),
        forall|i: int|
            0 <= i < sizes.len() ==> #[trigger] sizes[i] == 0 && elapsed_us[i] <= 2_000_000,
    ensures
        FspExchange::Send.after(events + polls(sizes, elapsed_us), nvdm_type) is Poll,
    decreases sizes.len(),
{
    let all = polls(sizes, elapsed_us);
    if sizes.len() == 0 {
        assert(events + all =~= events);
    } else {
        let before = polls(sizes.drop_last(), elapsed_us.drop_last());
        let last = sizes.len() - 1;
        assert forall|i: int| 0 <= i < last implies #[trigger] sizes.drop_last()[i] == 0
            && elapsed_us.drop_last()[i] <= 2_000_000 by {
            assert(sizes[i] == 0);
        }
        law_exchange_keeps_polling(events, sizes.drop_last(), elapsed_us.drop_last(), nvdm_type);
        let event = FspEvent::Polled { size: sizes[last], elapsed_us: elapsed_us[last] };
        assert(events + all =~= (events + before).push(event));
        assert(sizes[last] == 0);
        lemma_after_more(FspExchange::Send, events + before, event, nvdm_type);
    }
}

/// An exchange whose message was sent and whose looks come in time, however many find
/// nothing, receives as many bytes as the first look finds that finds any. It ends well if
/// what is received is an accepted reply, and with `EIO` if not.
pub proof fn law_exchange_completes(
    sizes: Seq<u32>,
    elapsed_us: Seq<u64>,
    size: u32,
    late_us: u64,
    data: Vec<u8>,
    nvdm_type: u32,
)
    requires
        sizes.len() == elapsed_us.len(),
        forall|i: int|
            0 <= i < sizes.len() ==> #[trigger] sizes[i] == 0 && elapsed_us[i] <= 2_000_000,
        size != 0,
    ensures
        ({
            let looked = seq![FspEvent::Sent(Ok(()))] + polls(sizes, elapsed_us);
            let announced = looked.push(FspEvent::Polled { size, elapsed_us: late_us });
            let received = announced.push(FspEvent::Received(Ok(data)));
            &&& FspExchange::Send.after(looked, nvdm_type) is Poll
            &&& FspExchange::Send.after(announced, nvdm_type) == (FspExchange::Receive {
                size: size as usize,
            })
            &&& FspExchange::Send.after(received, nvdm_type) == FspExchange::Done(
                Fsp::spec_check_response(data@, nvdm_type),
            )
        }),
{
    let sent = seq![FspEvent::Sent(Ok(()))];
    let looked = sent + polls(sizes, elapsed_us);
    let found = FspEvent::Polled { size, elapsed_us: late_us };
    let reply = FspEvent::Received(Ok(data));
    let none = Seq::<FspEvent>::empty();
    assert(sent =~= none.push(FspEvent::Sent(Ok(()))));
    lemma_after_more(FspExchange::Send, none, FspEvent::Sent(Ok(())), nvdm_type);
    law_exchange_keeps_polling(sent, sizes, elapsed_us, nvdm_type);
    lemma_after_more(FspExchange::Send, looked, found, nvdm_type);
    lemma_after_more(FspExchange::Send, looked.push(found), reply, nvdm_type);
}

/// An exchange that finds nothing until its time is up ends with `ETIMEDOUT`, and one in
/// which the message cannot be sent or the reply not received with the error of that.
pub proof fn law_exchange_fails(
    sizes: Seq<u32>,
    elapsed_us: Seq<u64>,
    late_us: u64,
    size: usize,
    error: Error,
    nvdm_type: u32,
)
    requires
        sizes.len() == elapsed_us.len(),
        forall|i: int|
            0 <= i < sizes.len() ==> #[trigger] sizes[i] == 0 && elapsed_us[i] <= 2_000_000,
        late_us > 2_000_000,
    ensures
        ({
            let looked = seq![FspEvent::Sent(Ok(()))] + polls(sizes, elapsed_us);
            &&& FspExchange::Send.after(
                looked.push(FspEvent::Polled { size: 0, elapsed_us: late_us }),
                nvdm_type,
            ) == FspExchange::Done(Err(Error::ETIMEDOUT))
            &&& FspExchange::Send.spec_next(FspEvent::Sent(Err(error)), nvdm_type)
                == FspExchange::Done(Err(error))
            &&& (FspExchange::Receive { size }).spec_next(FspEvent::Received(Err(error)), nvdm_type)
                == FspExchange::Done(Err(error))
        }),
{
    let sent = seq![FspEvent::Sent(Ok(()))];
    let looked = sent + polls(sizes, elapsed_us);
    let none = Seq::<FspEvent>::empty();
    assert(sent =~= none.push(FspEvent::Sent(Ok(()))));
    lemma_after_more(FspExchange::Send, none, FspEvent::Sent(Ok(())), nvdm_type);
    law_exchange_keeps_polling(sent, sizes, elapsed_us, nvdm_type);
    lemma_after_more(
        FspExchange::Send,
        looked,
        FspEvent::Polled { size: 0, elapsed_us: late_us },
        nvdm_type,
    );
}

/// What does not answer what was to be done changes nothing.
pub proof fn law_stray_events(state: FspExchange, event: FspEvent, nvdm_type: u32)
    requires
        !(state is Send && event is Sent),
        !(state is Poll && event is Polled),
        !(state is Receive && event is Received),
    ensures
        state.spec_next(event, nvdm_type) == state,
{
}

/// The FSP is looked at every ten milliseconds.
pub proof fn law_looks_at_fsp()
    ensures
        FSP_POLL_SLEEP_US * 100 == 1_000_000,
        FSP_MSG_TIMEOUT_US == 200 * FSP_POLL_SLEEP_US,
        FSP_SECURE_BOOT_TIMEOUT_US == 500 * FSP_POLL_SLEEP_US,
{
}

} // verus!
